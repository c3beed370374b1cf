use repo_auto_puller::config::{
    AppConfig, DefaultsConfig, DesktopNotificationsConfig, QuietHoursConfig, RepositoryConfig,
    Seconds, CURRENT_CONFIG_VERSION,
};
use repo_auto_puller::effective::{
    branch_allowed, decision_blocks_auto_pull, effective_report,
};
use repo_auto_puller::names::{infer_repo_name, sanitize_repo_name};
use repo_auto_puller::paths::{
    default_binary_path, default_history_file_path, default_log_file_path, default_state_file_path,
    expand_tilde, home_dir_path,
};
use repo_auto_puller::quiet::{in_quiet_hours, parse_quiet_time};
use repo_auto_puller::repo::{PathProbe, RepoSyncer, Snapshot, SyncDecision};
use repo_auto_puller::schema::{validate_config_schema, ConfigError};
use repo_auto_puller::settings::{
    count_enabled, default_config_version, default_enabled, default_interval_seconds, init_config,
    init_summary, init_target, merge_notification_settings, migrate_config, selected_repositories,
    set_repository_paused, upsert_repository, InitArgs,
};
use repo_auto_puller::state::{history_file_path, state_file_path};

fn seconds(value: f64) -> Seconds {
    Seconds { bits: value.to_bits() }
}

fn repository(name: &str, path: &str) -> RepositoryConfig {
    RepositoryConfig {
        name: name.into(),
        path: path.into(),
        interval_seconds: seconds(60.0),
        enabled: true,
        paused: false,
        dry_run: false,
        allowed_branches: Vec::new(),
        quiet_hours: None,
        desktop_notifications: None,
        before_pull_command: None,
        after_pull_command: None,
        on_failure_command: None,
    }
}

fn config(repositories: Vec<RepositoryConfig>) -> AppConfig {
    AppConfig {
        config_version: CURRENT_CONFIG_VERSION,
        defaults: DefaultsConfig::default(),
        repositories,
    }
}

fn text(table: &toml::Table, key: &str) -> Option<String> {
    table.get(key).and_then(|value| value.as_str()).map(|value| value.to_string())
}

fn notifications(table: &toml::Table) -> Option<DesktopNotificationsConfig> {
    let table = table.get("desktop_notifications")?.as_table()?;
    Some(DesktopNotificationsConfig {
        on_pull: table.get("on_pull").and_then(|value| value.as_bool()),
        on_failure: table.get("on_failure").and_then(|value| value.as_bool()),
        command: text(table, "command"),
    })
}

/// Reads the settings that the texts below hold.
fn read(raw: &str) -> AppConfig {
    let table: toml::Table = raw.parse().expect("config should parse");
    let mut defaults = DefaultsConfig::default();
    if let Some(given) = table.get("defaults").and_then(|value| value.as_table()) {
        defaults.desktop_notifications = notifications(given);
    }
    let mut repositories = Vec::new();
    for entry in table["repositories"].as_array().expect("a list") {
        let entry = entry.as_table().expect("a table");
        let mut repo = repository(
            &text(entry, "name").expect("a name"),
            &text(entry, "path").expect("a path"),
        );
        repo.interval_seconds = default_interval_seconds();
        repo.enabled = default_enabled();
        repositories.push(repo);
    }
    AppConfig {
        config_version: match table.get("config_version").and_then(|value| value.as_integer()) {
            Some(version) => version as u32,
            None => default_config_version(),
        },
        defaults,
        repositories,
    }
}

fn snapshot(branch: &str, ahead: u32, behind: u32) -> Snapshot {
    Snapshot {
        branch: branch.into(),
        upstream: format!("origin/{}", branch),
        remote: "origin".into(),
        remote_branch: branch.into(),
        ahead,
        behind,
        dirty: false,
    }
}

#[test]
fn sanitizes_repository_names() {
    assert_eq!(sanitize_repo_name("OpenClaw Code"), "openclaw-code");
    assert_eq!(sanitize_repo_name("repo__name"), "repo-name");
    assert_eq!(sanitize_repo_name("###"), "");
}

#[test]
fn keeps_sanitized_names() {
    assert_eq!(sanitize_repo_name("-#-A-#-b.C-"), "a-bc");
    assert_eq!(sanitize_repo_name("a-bc"), "a-bc");
    assert_eq!(sanitize_repo_name("\u{e9}t\u{e9} 9"), "t-9");
}

#[test]
fn infers_repository_name_from_path() {
    let path = "/tmp/OpenClaw Code";
    assert_eq!(
        infer_repo_name(path).expect("should infer repository name"),
        "openclaw-code"
    );
}

#[test]
fn infers_no_name_from_nothing() {
    assert_eq!(infer_repo_name("/a/b//").expect("a name"), "b");
    for path in ["/", "", ".", "./", "/./", "/tmp/..", "/tmp/../.", "/tmp/###"] {
        let error = infer_repo_name(path).expect_err("no name");
        assert_eq!(error.message(), format!("failed to infer repository name from path {}", path));
    }
}

#[test]
fn infers_names_past_what_adds_nothing() {
    for path in ["/a/tool/.", "/a/tool/.//", "tool/./.", "\\a/tool", "./tool"] {
        assert_eq!(infer_repo_name(path).expect("a name"), "tool");
    }
    assert_eq!(infer_repo_name("/a/my:tool").expect("a name"), "mytool");
    for path in ["\\\\host\\share\\Tool", "//host/share/Tool/", "\\\\?\\C:\\src\\Tool"] {
        assert!(infer_repo_name(path).expect("a name").ends_with("tool"));
    }
}

#[test]
fn upserts_repository_by_name() {
    let mut config = AppConfig {
        config_version: CURRENT_CONFIG_VERSION,
        defaults: DefaultsConfig::default(),
        repositories: vec![RepositoryConfig {
            name: "openclawcode".into(),
            path: "/old".into(),
            interval_seconds: seconds(60.0),
            enabled: true,
            paused: false,
            dry_run: false,
            allowed_branches: Vec::new(),
            quiet_hours: None,
            desktop_notifications: None,
            before_pull_command: None,
            after_pull_command: None,
            on_failure_command: None,
        }],
    };

    upsert_repository(
        &mut config,
        RepositoryConfig {
            name: "openclawcode".into(),
            path: "/new".into(),
            interval_seconds: seconds(30.0),
            enabled: true,
            paused: false,
            dry_run: true,
            allowed_branches: vec!["main".into()],
            quiet_hours: None,
            desktop_notifications: None,
            before_pull_command: Some("echo before".into()),
            after_pull_command: Some("echo after".into()),
            on_failure_command: Some("echo failed".into()),
        },
    );

    assert_eq!(config.repositories.len(), 1);
    assert_eq!(config.repositories[0].path, "/new");
    assert_eq!(f64::from_bits(config.repositories[0].interval_seconds.bits), 30.0);
    assert!(config.repositories[0].dry_run);
    assert_eq!(config.repositories[0].allowed_branches, vec!["main"]);
    assert_eq!(
        config.repositories[0].before_pull_command.as_deref(),
        Some("echo before")
    );
    assert_eq!(
        config.repositories[0].after_pull_command.as_deref(),
        Some("echo after")
    );
    assert_eq!(
        config.repositories[0].on_failure_command.as_deref(),
        Some("echo failed")
    );
}

#[test]
fn upserts_new_names_at_the_end() {
    let mut config = config(vec![repository("a", "/a")]);
    upsert_repository(&mut config, repository("b", "/b"));
    upsert_repository(&mut config, repository("b", "/b"));
    let names: Vec<&str> = config.repositories.iter().map(|repo| repo.name.as_str()).collect();
    assert_eq!(names, vec!["a", "b"]);
}

#[test]
fn validates_duplicate_names() {
    let config = AppConfig {
        config_version: CURRENT_CONFIG_VERSION,
        defaults: DefaultsConfig::default(),
        repositories: vec![
            RepositoryConfig {
                name: "same".into(),
                path: "/one".into(),
                interval_seconds: seconds(60.0),
                enabled: true,
                paused: false,
                dry_run: false,
                allowed_branches: Vec::new(),
                quiet_hours: None,
                desktop_notifications: None,
                before_pull_command: None,
                after_pull_command: None,
                on_failure_command: None,
            },
            RepositoryConfig {
                name: "same".into(),
                path: "/two".into(),
                interval_seconds: seconds(60.0),
                enabled: true,
                paused: false,
                dry_run: false,
                allowed_branches: Vec::new(),
                quiet_hours: None,
                desktop_notifications: None,
                before_pull_command: None,
                after_pull_command: None,
                on_failure_command: None,
            },
        ],
    };

    let err = validate_config_schema(&config).expect_err("should reject duplicate names");
    assert!(err.message().contains("duplicate repository name"));
}

#[test]
fn rejects_future_config_versions() {
    let config = read(
        r#"
config_version = 999

[[repositories]]
name = "openclawcode"
path = "/tmp/openclawcode"
"#,
    );

    let err = validate_config_schema(&config).expect_err("future version should be rejected");
    assert!(err.message().contains("config_version 999 is newer"));
    assert_eq!(
        err.message(),
        "config_version 999 is newer than this binary supports (1)"
    );
}

#[test]
fn says_what_is_wrong_with_a_config() {
    let message = |change: &dyn Fn(&mut AppConfig)| {
        let mut config = config(vec![repository("a", "/a"), repository("b", "/b")]);
        change(&mut config);
        match validate_config_schema(&config) {
            Ok(()) => "ok".to_string(),
            Err(error) => error.message(),
        }
    };
    let hours = |start: &str, end: &str| {
        Some(QuietHoursConfig { start: start.into(), end: end.into() })
    };
    assert_eq!(message(&|_| {}), "ok");
    assert_eq!(message(&|config| config.repositories.clear()), "config has no repositories");
    assert_eq!(
        message(&|config| config.repositories[1].name = " \t".into()),
        "repository names must not be empty"
    );
    assert_eq!(
        message(&|config| config.repositories[1].interval_seconds = seconds(0.0)),
        "repository b has invalid interval_seconds"
    );
    assert_eq!(
        message(&|config| config.repositories[0].allowed_branches = vec![" ".into()]),
        "repository a has an empty allowed_branches entry"
    );
    assert_eq!(
        message(&|config| {
            config.repositories[0].allowed_branches = vec!["x".into(), "y".into(), "x".into()]
        }),
        "repository a has duplicate allowed_branches entry: x"
    );
    assert_eq!(
        message(&|config| config.repositories[0].quiet_hours = hours("24:00", "07:00")),
        "repository a has invalid quiet_hours.start 24:00"
    );
    assert_eq!(
        message(&|config| config.repositories[0].quiet_hours = hours("23:00", "7")),
        "repository a has invalid quiet_hours.end 7"
    );
    assert_eq!(
        message(&|config| config.repositories[0].quiet_hours = hours("7:00", "07:00")),
        "repository a has quiet_hours with identical start and end"
    );
    assert_eq!(
        message(&|config| config.repositories[1].path = "/a".into()),
        "duplicate repository path: /a"
    );
}

#[test]
fn blocks_auto_pull_for_guard_decisions() {
    assert!(decision_blocks_auto_pull(&SyncDecision::AheadOnly));
    assert!(decision_blocks_auto_pull(&SyncDecision::DirtyBehind));
    assert!(decision_blocks_auto_pull(&SyncDecision::Diverged));
    assert!(!decision_blocks_auto_pull(&SyncDecision::UpToDate));
    assert!(!decision_blocks_auto_pull(&SyncDecision::PullFastForward));
}

#[test]
fn allows_all_branches_when_allowed_branches_is_empty() {
    let config = RepositoryConfig {
        name: "openclawcode".into(),
        path: "/tmp/openclawcode".into(),
        interval_seconds: seconds(60.0),
        enabled: true,
        paused: false,
        dry_run: false,
        allowed_branches: Vec::new(),
        quiet_hours: None,
        desktop_notifications: None,
        before_pull_command: None,
        after_pull_command: None,
        on_failure_command: None,
    };

    assert!(branch_allowed(&config, "main"));
    assert!(branch_allowed(&config, "feature/xyz"));
}

#[test]
fn overrides_pull_decision_when_branch_is_not_allowed() {
    let config = RepositoryConfig {
        name: "openclawcode".into(),
        path: "/tmp/openclawcode".into(),
        interval_seconds: seconds(60.0),
        enabled: true,
        paused: false,
        dry_run: false,
        allowed_branches: vec!["main".into()],
        quiet_hours: None,
        desktop_notifications: None,
        before_pull_command: None,
        after_pull_command: None,
        on_failure_command: None,
    };
    let snapshot = Snapshot {
        branch: "feature".into(),
        upstream: "origin/feature".into(),
        remote: "origin".into(),
        remote_branch: "feature".into(),
        ahead: 0,
        behind: 2,
        dirty: false,
    };
    let report = RepoSyncer::report(&snapshot);
    let effective = effective_report(&config, &snapshot, &report, 0);

    assert_eq!(effective.decision, "branch-not-allowed");
    assert!(effective.blocks_auto_pull);
    assert!(effective.message.contains("allowed_branches [main]"));
}

#[test]
fn overrides_report_when_repository_is_paused() {
    let config = RepositoryConfig {
        name: "openclawcode".into(),
        path: "/tmp/openclawcode".into(),
        interval_seconds: seconds(60.0),
        enabled: true,
        paused: true,
        dry_run: false,
        allowed_branches: vec!["main".into()],
        quiet_hours: None,
        desktop_notifications: None,
        before_pull_command: None,
        after_pull_command: None,
        on_failure_command: None,
    };
    let snapshot = Snapshot {
        branch: "main".into(),
        upstream: "origin/main".into(),
        remote: "origin".into(),
        remote_branch: "main".into(),
        ahead: 0,
        behind: 2,
        dirty: false,
    };
    let report = RepoSyncer::report(&snapshot);
    let effective = effective_report(&config, &snapshot, &report, 0);

    assert_eq!(effective.decision, "paused");
    assert!(effective.blocks_auto_pull);
    assert!(effective.message.contains("paused in config"));
}

#[test]
fn hears_the_configuration_in_order() {
    let mut config = repository("tool", "/tool");
    config.allowed_branches = vec!["main".into(), "release".into()];
    config.quiet_hours = Some(QuietHoursConfig { start: "22:00".into(), end: "06:00".into() });
    let state = snapshot("feature", 0, 1);
    let report = RepoSyncer::report(&state);
    let at_night = effective_report(&config, &state, &report, 23 * 3600);
    assert_eq!(at_night.decision, "quiet-hours");
    assert_eq!(at_night.level, "WARN");
    assert_eq!(
        at_night.message,
        "tool is inside quiet_hours 22:00-06:00; skipping auto-pull"
    );
    let at_noon = effective_report(&config, &state, &report, 12 * 3600);
    assert_eq!(
        at_noon.message,
        "feature is not in allowed_branches [main, release]; skipping auto-pull"
    );
    let state = snapshot("main", 0, 1);
    let report = RepoSyncer::report(&state);
    let free = effective_report(&config, &state, &report, 12 * 3600);
    assert_eq!(free.decision, "pull-fast-forward");
    assert_eq!(free.level, "INFO");
    assert!(!free.blocks_auto_pull);
    config.quiet_hours = Some(QuietHoursConfig { start: "x".into(), end: "06:00".into() });
    assert!(!effective_report(&config, &state, &report, 0).blocks_auto_pull);
    config.paused = true;
    let paused = effective_report(&config, &state, &report, 0);
    assert_eq!(paused.message, "tool is paused in config; skipping auto-pull");
}

#[test]
fn matches_quiet_hours_within_same_day_window() {
    let config = RepositoryConfig {
        name: "openclawcode".into(),
        path: "/tmp/openclawcode".into(),
        interval_seconds: seconds(60.0),
        enabled: true,
        paused: false,
        dry_run: false,
        allowed_branches: Vec::new(),
        quiet_hours: Some(QuietHoursConfig {
            start: "09:00".into(),
            end: "17:00".into(),
        }),
        desktop_notifications: None,
        before_pull_command: None,
        after_pull_command: None,
        on_failure_command: None,
    };

    let hit = in_quiet_hours(&config, time(10, 30, 0)).expect("should parse quiet hours");
    let miss = in_quiet_hours(&config, time(18, 0, 0)).expect("should parse quiet hours");

    assert_eq!(hit.as_deref(), Some("09:00-17:00"));
    assert!(miss.is_none());
}

/// The seconds from midnight to a time of the day.
fn time(hour: u32, minute: u32, second: u32) -> u32 {
    let time = chrono::NaiveTime::from_hms_opt(hour, minute, second).expect("valid time");
    chrono::Timelike::num_seconds_from_midnight(&time)
}

#[test]
fn matches_quiet_hours_across_midnight() {
    let config = RepositoryConfig {
        name: "openclawcode".into(),
        path: "/tmp/openclawcode".into(),
        interval_seconds: seconds(60.0),
        enabled: true,
        paused: false,
        dry_run: false,
        allowed_branches: Vec::new(),
        quiet_hours: Some(QuietHoursConfig {
            start: "23:00".into(),
            end: "07:00".into(),
        }),
        desktop_notifications: None,
        before_pull_command: None,
        after_pull_command: None,
        on_failure_command: None,
    };

    let late = in_quiet_hours(&config, time(23, 30, 0)).expect("should parse quiet hours");
    let early = in_quiet_hours(&config, time(6, 30, 0)).expect("should parse quiet hours");
    let midday = in_quiet_hours(&config, time(12, 0, 0)).expect("should parse quiet hours");

    assert_eq!(late.as_deref(), Some("23:00-07:00"));
    assert_eq!(early.as_deref(), Some("23:00-07:00"));
    assert!(midday.is_none());
}

#[test]
fn reads_times_of_the_day() {
    assert_eq!(parse_quiet_time("00:00").expect("a time"), 0);
    assert_eq!(parse_quiet_time("9:05").expect("a time"), 32700);
    assert_eq!(parse_quiet_time(" 23: 59").expect("a time"), 86340);
    for value in ["", "9", "24:00", "12:60", "9:05:00", "009:05", "9:05 ", "-1:00", "9.05"] {
        let error = parse_quiet_time(value).expect_err("no time");
        assert_eq!(error.message(), format!("expected HH:MM, got {}", value));
    }
}

#[test]
fn merges_notification_settings_with_repo_override() {
    let defaults = DesktopNotificationsConfig {
        on_pull: Some(false),
        on_failure: Some(true),
        command: Some("echo default".into()),
    };
    let repo = DesktopNotificationsConfig {
        on_pull: Some(true),
        on_failure: None,
        command: None,
    };

    let merged = merge_notification_settings(Some(&defaults), Some(&repo));

    assert!(merged.on_pull);
    assert!(merged.on_failure);
    assert_eq!(merged.command.as_deref(), Some("echo default"));
}

#[test]
fn selects_notification_settings_from_defaults() {
    let config = read(
        r#"
[defaults.desktop_notifications]
on_pull = true
on_failure = true
command = "echo notify"

[[repositories]]
name = "openclawcode"
path = "/tmp/openclawcode"
"#,
    );

    let selected = selected_repositories(&config, &[]).expect("repo should be selected");

    assert_eq!(selected.len(), 1);
    assert!(selected[0].notification_settings.on_pull);
    assert!(selected[0].notification_settings.on_failure);
    assert_eq!(
        selected[0].notification_settings.command.as_deref(),
        Some("echo notify")
    );
}

#[test]
fn selects_enabled_repositories_by_name() {
    let mut config = config(vec![repository("a", "/a"), repository("b", "/b"), repository("c", "/c")]);
    config.repositories[1].enabled = false;
    config.repositories[2].before_pull_command = Some("own".into());
    config.defaults.before_pull_command = Some("general".into());
    assert_eq!(count_enabled(&config), 2);
    let all = selected_repositories(&config, &[]).expect("two are enabled");
    assert_eq!(all.len(), 2);
    assert_eq!(all[0].before_pull_command.as_deref(), Some("general"));
    assert_eq!(all[1].before_pull_command.as_deref(), Some("own"));
    let one = selected_repositories(&config, &["b".into(), "c".into()]).expect("one is enabled");
    assert_eq!(one.len(), 1);
    assert_eq!(one[0].config.name, "c");
    let none = selected_repositories(&config, &["b".into(), "x".into()]).expect_err("none");
    assert_eq!(none.message(), "no repositories matched the requested names: b, x");
    config.repositories.truncate(0);
    let none = selected_repositories(&config, &[]).expect_err("none");
    assert_eq!(none.message(), "no enabled repositories found in config");
}

#[test]
fn toggles_repository_pause_in_config() {
    let mut config = read(
        r#"
[[repositories]]
name = "openclawcode"
path = "/tmp/openclawcode"
"#,
    );

    let said = set_repository_paused(&mut config, "openclawcode", true).expect("pause should succeed");
    assert_eq!(said, "Paused repository openclawcode");
    assert!(config.repositories[0].paused);

    let said =
        set_repository_paused(&mut config, "openclawcode", false).expect("resume should succeed");
    assert_eq!(said, "Resumed repository openclawcode");
    assert!(!config.repositories[0].paused);

    let error = set_repository_paused(&mut config, "other", true).expect_err("there is none");
    assert_eq!(error.message(), "repository not found in config: other");
    assert!(matches!(error, ConfigError::UnknownRepository { .. }));
}

#[test]
fn migrates_legacy_config_to_current_version() {
    let mut config = read(
        r#"
[[repositories]]
name = "openclawcode"
path = "/tmp/openclawcode"
"#,
    );

    let said = migrate_config(&mut config, "/etc/config.toml");

    assert_eq!(config.config_version, CURRENT_CONFIG_VERSION);
    assert_eq!(said, "Migrated config to version 1 in /etc/config.toml");
    assert!(validate_config_schema(&config).is_ok());
}

#[test]
fn migrates_an_older_version() {
    let mut config = read(
        r#"
config_version = 0

[[repositories]]
name = "openclawcode"
path = "/tmp/openclawcode"
"#,
    );
    assert_eq!(config.config_version, 0);
    migrate_config(&mut config, "/etc/config.toml");
    assert_eq!(config.config_version, CURRENT_CONFIG_VERSION);
    assert_eq!(config.repositories[0].path, "/tmp/openclawcode");
}

fn asked(name: Option<&str>, interval: f64) -> InitArgs {
    InitArgs {
        repo_path: "/src/My Repo".into(),
        name: name.map(|name| name.to_string()),
        interval: seconds(interval),
        dry_run: true,
        disabled: false,
    }
}

#[test]
fn adds_a_repository_to_a_new_config() {
    let args = asked(None, 30.0);
    let probe = PathProbe::Resolved { canonical: "/src/My Repo".into(), has_git: true };
    let (path, name) = init_target(&args, "/src/My Repo", &probe).expect("a repository");
    assert_eq!((path.as_str(), name.as_str()), ("/src/My Repo", "my-repo"));
    let config = init_config(None, &args, &path, &name, "linux", Some("/home/u"));
    assert!(validate_config_schema(&config).is_ok());
    assert_eq!(
        config.defaults.log_file.as_deref(),
        Some("~/.local/state/repo-auto-puller/repo-auto-puller.log")
    );
    assert_eq!(config.repositories.len(), 1);
    assert!(config.repositories[0].dry_run);
    let again = init_config(Some(config), &args, "/elsewhere", &name, "linux", None);
    assert_eq!(again.repositories.len(), 1);
    assert_eq!(again.repositories[0].path, "/elsewhere");
    assert_eq!(
        init_summary(&args, "/src/My Repo", "my-repo", "/c.toml", "30"),
        "Wrote repository config:\n  name: my-repo\n  path: /src/My Repo\n  config: /c.toml\n  interval_seconds: 30\n  enabled: true\n  paused: false\n  dry_run: true\n  allowed_branches: []\n  quiet_hours: none\n"
    );
}

#[test]
fn refuses_to_add_what_is_not_usable() {
    let there = PathProbe::Resolved { canonical: "/src/My Repo".into(), has_git: true };
    let message = |args: InitArgs, probe: &PathProbe| {
        init_target(&args, "/src/My Repo", probe).expect_err("not usable").message()
    };
    assert_eq!(message(asked(None, 0.0), &there), "--interval must be greater than 0");
    assert_eq!(
        message(asked(Some("!!"), 1.0), &there),
        "repository name must contain at least one alphanumeric character"
    );
    assert_eq!(
        message(asked(None, 1.0), &PathProbe::Unresolved),
        "failed to resolve repo path /src/My Repo"
    );
    let dots = PathProbe::Resolved { canonical: "/src/...".into(), has_git: true };
    assert_eq!(
        message(asked(None, 1.0), &dots),
        "failed to infer repository name from path /src/..."
    );
    let (_, name) = init_target(&asked(Some("Tool_1"), 1.0), "/src", &there).expect("usable");
    assert_eq!(name, "tool-1");
}

#[test]
fn expands_the_tilde() {
    assert_eq!(expand_tilde("~", Some("/home/u")), "/home/u");
    assert_eq!(expand_tilde("~/a/b", Some("/home/u")), "/home/u/a/b");
    assert_eq!(expand_tilde("~/a", Some("/home/u/")), "/home/u/a");
    assert_eq!(expand_tilde("~x/a", Some("/home/u")), "~x/a");
    assert_eq!(expand_tilde("/a/~", Some("/home/u")), "/a/~");
    assert_eq!(expand_tilde("~/a", None), "~/a");
    assert_eq!(expand_tilde("~/my:a", Some("/home/u/")), "/home/u/my:a");
    assert_eq!(expand_tilde("~/a", Some("\\u/")), "\\u/a");
    assert!(expand_tilde("~/a", Some("\\\\host\\u")).starts_with("\\\\host\\u"));
    assert!(expand_tilde("~//a", Some("/home/u")).ends_with("/a"));
    assert_eq!(home_dir_path(None, Some("/p".into())).as_deref(), Some("/p"));
    assert_eq!(home_dir_path(Some("/h".into()), Some("/p".into())).as_deref(), Some("/h"));
}

#[test]
fn knows_default_places() {
    let home = Some("/home/u");
    assert_eq!(
        default_log_file_path("linux", home),
        "~/.local/state/repo-auto-puller/repo-auto-puller.log"
    );
    assert_eq!(
        default_state_file_path("windows", home),
        "/home/u/AppData/Local/repo-auto-puller/status.json"
    );
    assert_eq!(
        default_history_file_path("windows", None),
        "~/AppData/Local/repo-auto-puller/history.jsonl"
    );
    assert_eq!(default_binary_path("macos", home), "~/.local/bin/repo-auto-puller");
    let mut config = config(vec![repository("a", "/a")]);
    assert_eq!(
        state_file_path(&config, "linux", home),
        "/home/u/.local/state/repo-auto-puller/status.json"
    );
    config.defaults.history_file = Some("~/h.jsonl".into());
    assert_eq!(history_file_path(&config, "linux", home), "/home/u/h.jsonl");
    assert_eq!(f64::from_bits(default_interval_seconds().bits), 60.0);
}
