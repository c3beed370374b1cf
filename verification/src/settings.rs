//! Choosing repositories from the configuration, and changing it.

use crate::config::{
    copy_option, option_text, repository_views, AppConfig, AppView, DefaultsConfig, DefaultsView,
    DesktopNotificationsConfig, NotificationsView, RepositoryConfig, RepositoryView, Seconds,
    CURRENT_CONFIG_VERSION,
};
use crate::names::{
    infer_repo_name, inferred_name, name_view, names_are_clean, sanitize_repo_name, sanitized,
};
use crate::paths::{
    default_history_file_path, default_log_file_path, default_state_file_path, is_default_path,
    is_file_name, option_str,
};
use crate::repo::{copy_list, resolve_repo, resolved, PathProbe, RepoError, RepoErrorView};
use crate::schema::{valid_config, valid_repository, ConfigError, ConfigErrorView};
use crate::text::{
    decimal, decimal_text, list_has, same_text, texts, trim_end, trim_start, trimmed, white_space,
};
use vstd::prelude::*;

verus! {

/// The interval between two checks if the configuration does not say: sixty
/// seconds.
pub fn default_interval_seconds() -> (interval: Seconds)
    ensures
        interval == (Seconds { bits: 0x404e_0000_0000_0000 }),
{
    Seconds { bits: 0x404e_0000_0000_0000 }
}

/// The version of a configuration that does not say.
pub fn default_config_version() -> (version: u32)
    ensures
        version == CURRENT_CONFIG_VERSION,
{
    CURRENT_CONFIG_VERSION
}

/// A repository is enabled unless the configuration says otherwise.
pub fn default_enabled() -> (enabled: bool)
    ensures
        enabled,
{
    true
}

/// When and how the desktop is notified.
#[derive(Debug)]
pub struct NotificationSettings {
    pub on_pull: bool,
    pub on_failure: bool,
    pub command: Option<String>,
}

/// What [`NotificationSettings`] say.
#[verifier::ext_equal]
pub struct NotificationSettingsView {
    pub on_pull: bool,
    pub on_failure: bool,
    pub command: Option<Seq<char>>,
}

impl View for NotificationSettings {
    type V = NotificationSettingsView;

    open spec fn view(&self) -> NotificationSettingsView {
        NotificationSettingsView {
            on_pull: self.on_pull,
            on_failure: self.on_failure,
            command: option_text(self.command),
        }
    }
}

impl Clone for NotificationSettings {
    fn clone(&self) -> (copy: Self)
        ensures
            copy@ == self@,
    {
        NotificationSettings {
            on_pull: self.on_pull,
            on_failure: self.on_failure,
            command: copy_option(&self.command),
        }
    }
}

/// The first of two optional values that is there.
pub open spec fn first_of<T>(a: Option<T>, b: Option<T>) -> Option<T> {
    if a is Some {
        a
    } else {
        b
    }
}

/// What optional notification settings say.
pub open spec fn notifications_of(
    config: Option<&DesktopNotificationsConfig>,
) -> Option<NotificationsView> {
    match config {
        Some(config) => Some(config@),
        None => None,
    }
}

/// The settings of a repository, with what they leave out taken from the
/// defaults, and nothing notified where neither says.
pub open spec fn merged_notifications(
    defaults: Option<NotificationsView>,
    repo: Option<NotificationsView>,
) -> NotificationSettingsView {
    let blank = NotificationsView { on_pull: None, on_failure: None, command: None };
    let general = match defaults {
        Some(config) => config,
        None => blank,
    };
    let special = match repo {
        Some(config) => config,
        None => blank,
    };
    NotificationSettingsView {
        on_pull: first_of(special.on_pull, general.on_pull) == Some(true),
        on_failure: first_of(special.on_failure, general.on_failure) == Some(true),
        command: first_of(special.command, general.command),
    }
}

/// The settings of a repository, with what they leave out taken from the
/// defaults.
pub fn merge_notification_settings(
    defaults: Option<&DesktopNotificationsConfig>,
    repo: Option<&DesktopNotificationsConfig>,
) -> (settings: NotificationSettings)
    ensures
        settings@ == merged_notifications(notifications_of(defaults), notifications_of(repo)),
{
    let mut on_pull: Option<bool> = None;
    let mut on_failure: Option<bool> = None;
    let mut command: Option<String> = None;
    if let Some(config) = repo {
        on_pull = config.on_pull;
        on_failure = config.on_failure;
        command = copy_option(&config.command);
    }
    if let Some(config) = defaults {
        if on_pull.is_none() {
            on_pull = config.on_pull;
        }
        if on_failure.is_none() {
            on_failure = config.on_failure;
        }
        if command.is_none() {
            command = copy_option(&config.command);
        }
    }
    NotificationSettings {
        on_pull: match on_pull {
            Some(value) => value,
            None => false,
        },
        on_failure: match on_failure {
            Some(value) => value,
            None => false,
        },
        command,
    }
}

/// A repository that was chosen, with what it takes from the defaults.
#[derive(Debug)]
pub struct SelectedRepo {
    pub config: RepositoryConfig,
    pub before_pull_command: Option<String>,
    pub after_pull_command: Option<String>,
    pub on_failure_command: Option<String>,
    pub notification_settings: NotificationSettings,
}

/// What a [`SelectedRepo`] says.
#[verifier::ext_equal]
pub struct SelectedView {
    pub config: RepositoryView,
    pub before_pull_command: Option<Seq<char>>,
    pub after_pull_command: Option<Seq<char>>,
    pub on_failure_command: Option<Seq<char>>,
    pub notification_settings: NotificationSettingsView,
}

impl View for SelectedRepo {
    type V = SelectedView;

    open spec fn view(&self) -> SelectedView {
        SelectedView {
            config: self.config@,
            before_pull_command: option_text(self.before_pull_command),
            after_pull_command: option_text(self.after_pull_command),
            on_failure_command: option_text(self.on_failure_command),
            notification_settings: self.notification_settings@,
        }
    }
}

impl Clone for SelectedRepo {
    fn clone(&self) -> (copy: Self)
        ensures
            copy@ == self@,
    {
        SelectedRepo {
            config: self.config.clone(),
            before_pull_command: copy_option(&self.before_pull_command),
            after_pull_command: copy_option(&self.after_pull_command),
            on_failure_command: copy_option(&self.on_failure_command),
            notification_settings: self.notification_settings.clone(),
        }
    }
}

/// Whether a repository is chosen: it is enabled, and its name was asked for,
/// or no name was.
pub open spec fn is_wanted(repo: RepositoryView, names: Seq<Seq<char>>) -> bool {
    repo.enabled && (names.len() == 0 || names.contains(repo.name))
}

/// A chosen repository, with what it takes from the defaults.
pub open spec fn with_defaults(repo: RepositoryView, defaults: DefaultsView) -> SelectedView {
    SelectedView {
        config: repo,
        before_pull_command: first_of(repo.before_pull_command, defaults.before_pull_command),
        after_pull_command: first_of(repo.after_pull_command, defaults.after_pull_command),
        on_failure_command: first_of(repo.on_failure_command, defaults.on_failure_command),
        notification_settings: merged_notifications(
            defaults.desktop_notifications,
            repo.desktop_notifications,
        ),
    }
}

/// The chosen repositories, in the order of the configuration.
pub open spec fn selection(config: AppView, names: Seq<Seq<char>>) -> Seq<SelectedView> {
    config.repositories.filter(|repo: RepositoryView| is_wanted(repo, names)).map_values(
        |repo: RepositoryView| with_defaults(repo, config.defaults),
    )
}

/// What a list of chosen repositories says.
pub open spec fn selected_views(list: Seq<SelectedRepo>) -> Seq<SelectedView> {
    list.map_values(|repo: SelectedRepo| repo@)
}

/// The first of two optional texts that is there.
fn first_text(a: &Option<String>, b: &Option<String>) -> (text: Option<String>)
    ensures
        option_text(text) == first_of(option_text(*a), option_text(*b)),
{
    match a {
        Some(text) => Some(text.clone()),
        None => copy_option(b),
    }
}

/// The repositories that are enabled and asked for by name, or all that are
/// enabled if no name is given. It is an error if there are none.
pub fn selected_repositories(config: &AppConfig, selected: &[String]) -> (repos: Result<
    Vec<SelectedRepo>,
    ConfigError,
>)
    ensures
        match repos {
            Ok(repos) => repos.len() > 0 && selected_views(repos@) == selection(
                config@,
                texts(selected@),
            ),
            Err(error) => {
                &&& selection(config@, texts(selected@)).len() == 0
                &&& error@ == if selected@.len() == 0 {
                    ConfigErrorView::NoneEnabled
                } else {
                    ConfigErrorView::NoneSelected { names: texts(selected@) }
                }
            },
        },
{
    let ghost names = texts(selected@);
    let ghost all = config@.repositories;
    let ghost wanted = |repo: RepositoryView| is_wanted(repo, names);
    let ghost filled = |repo: RepositoryView| with_defaults(repo, config@.defaults);
    let mut repos: Vec<SelectedRepo> = Vec::new();
    let mut i: usize = 0;
    proof {
        reveal(Seq::filter);
        assert(all.take(0).filter(wanted) =~= Seq::empty());
    }
    while i < config.repositories.len()
        invariant
            i <= config.repositories.len(),
            names == texts(selected@),
            all == config@.repositories,
            wanted == (|repo: RepositoryView| is_wanted(repo, names)),
            filled == (|repo: RepositoryView| with_defaults(repo, config@.defaults)),
            selected_views(repos@) =~= all.take(i as int).filter(wanted).map_values(filled),
        decreases config.repositories.len() - i,
    {
        let repo = &config.repositories[i];
        let ghost before = repos@;
        proof {
            reveal(Seq::filter);
            assert(all.take(i + 1).drop_last() =~= all.take(i as int));
            assert(all.take(i + 1).last() == repo@);
        }
        if repo.enabled && (selected.len() == 0 || list_has(selected, repo.name.as_str())) {
            let chosen = SelectedRepo {
                config: repo.clone(),
                before_pull_command: first_text(
                    &repo.before_pull_command,
                    &config.defaults.before_pull_command,
                ),
                after_pull_command: first_text(
                    &repo.after_pull_command,
                    &config.defaults.after_pull_command,
                ),
                on_failure_command: first_text(
                    &repo.on_failure_command,
                    &config.defaults.on_failure_command,
                ),
                notification_settings: merge_notification_settings(
                    config.defaults.desktop_notifications.as_ref(),
                    repo.desktop_notifications.as_ref(),
                ),
            };
            assert(chosen@ == filled(repo@));
            repos.push(chosen);
            assert(selected_views(repos@) =~= selected_views(before).push(chosen@));
        }
        i = i + 1;
    }
    assert(all.take(i as int) =~= all);
    assert(selected_views(repos@).len() == repos.len());
    if repos.len() == 0 {
        if selected.len() == 0 {
            return Err(ConfigError::NoneEnabled);
        }
        return Err(ConfigError::NoneSelected { names: copy_list(selected) });
    }
    Ok(repos)
}

/// The place of the first repository with a name, counted from `from`.
pub open spec fn place_of(repos: Seq<RepositoryView>, name: Seq<char>, from: int) -> Option<int>
    decreases repos.len() - from,
{
    if from < 0 || from >= repos.len() {
        None
    } else if repos[from].name == name {
        Some(from)
    } else {
        place_of(repos, name, from + 1)
    }
}

/// The repositories with one put in the place of the first that has its name,
/// or at the end if none has.
pub open spec fn upserted(repos: Seq<RepositoryView>, repo: RepositoryView) -> Seq<RepositoryView> {
    match place_of(repos, repo.name, 0) {
        Some(i) => repos.update(i, repo),
        None => repos.push(repo),
    }
}

/// The place of the first repository with a name.
fn find_repository(repos: &Vec<RepositoryConfig>, name: &str) -> (place: Option<usize>)
    ensures
        match place {
            Some(i) => place_of(repository_views(repos@), name@, 0) == Some(i as int) && i
                < repos.len(),
            None => place_of(repository_views(repos@), name@, 0) is None,
        },
{
    let ghost views = repository_views(repos@);
    let mut i: usize = 0;
    while i < repos.len()
        invariant
            i <= repos.len(),
            views == repository_views(repos@),
            place_of(views, name@, 0) == place_of(views, name@, i as int),
        decreases repos.len() - i,
    {
        assert(views[i as int] == repos@[i as int]@);
        if same_text(repos[i].name.as_str(), name) {
            return Some(i);
        }
        i = i + 1;
    }
    None
}

/// Puts a repository into the configuration, in the place of the one that has
/// its name if there is one.
pub fn upsert_repository(config: &mut AppConfig, repo: RepositoryConfig)
    ensures
        final(config)@ == (AppView {
            repositories: upserted(old(config)@.repositories, repo@),
            ..old(config)@
        }),
{
    match find_repository(&config.repositories, repo.name.as_str()) {
        Some(i) => {
            config.repositories.set(i, repo);
        },
        None => {
            config.repositories.push(repo);
        },
    }
    assert(repository_views(config.repositories@) =~= upserted(
        old(config)@.repositories,
        repo@,
    ));
}

/// The repositories with the first that has a name paused or not.
pub open spec fn with_paused(
    repos: Seq<RepositoryView>,
    name: Seq<char>,
    paused: bool,
) -> Seq<RepositoryView> {
    match place_of(repos, name, 0) {
        Some(i) => repos.update(i, RepositoryView { paused, ..repos[i] }),
        None => repos,
    }
}

/// What is said when a repository has been paused or resumed.
pub open spec fn pause_message(name: Seq<char>, paused: bool) -> Seq<char> {
    (if paused {
        "Paused"@
    } else {
        "Resumed"@
    }) + " repository "@ + name
}

/// Pauses a repository or resumes it, and says so. It is an error if no
/// repository has the name; the configuration is unchanged in that case.
pub fn set_repository_paused(config: &mut AppConfig, repo_name: &str, paused: bool) -> (result:
    Result<String, ConfigError>)
    ensures
        final(config)@ == (AppView {
            repositories: with_paused(old(config)@.repositories, repo_name@, paused),
            ..old(config)@
        }),
        match result {
            Ok(message) => {
                &&& place_of(old(config)@.repositories, repo_name@, 0) is Some
                &&& message@ == pause_message(repo_name@, paused)
            },
            Err(error) => {
                &&& place_of(old(config)@.repositories, repo_name@, 0) is None
                &&& error@ == ConfigErrorView::UnknownRepository { name: repo_name@ }
            },
        },
{
    match find_repository(&config.repositories, repo_name) {
        Some(i) => {
            let mut repo = config.repositories[i].clone();
            repo.paused = paused;
            config.repositories.set(i, repo);
            assert(repository_views(config.repositories@) =~= with_paused(
                old(config)@.repositories,
                repo_name@,
                paused,
            ));
            let verb = if paused {
                "Paused"
            } else {
                "Resumed"
            };
            Ok(verb.to_owned().concat(" repository ").concat(repo_name))
        },
        None => Err(ConfigError::UnknownRepository { name: repo_name.to_owned() }),
    }
}

/// A configuration brought to the current version.
pub open spec fn migrated(config: AppView) -> AppView {
    AppView { config_version: CURRENT_CONFIG_VERSION, ..config }
}

/// Brings a configuration to the current version, and says so; `location` is
/// where the configuration is kept.
pub fn migrate_config(config: &mut AppConfig, location: &str) -> (message: String)
    ensures
        final(config)@ == (AppView { config_version: CURRENT_CONFIG_VERSION, ..old(config)@ }),
        final(config)@ == migrated(old(config)@),
        message@ == "Migrated config to version "@ + decimal(CURRENT_CONFIG_VERSION as nat)
            + " in "@ + location@,
{
    config.config_version = CURRENT_CONFIG_VERSION;
    "Migrated config to version ".to_owned().concat(
        decimal_text(CURRENT_CONFIG_VERSION as u64).as_str(),
    ).concat(" in ").concat(location)
}

/// What is asked for when a repository is added to the configuration.
#[derive(Debug)]
pub struct InitArgs {
    pub repo_path: String,
    pub name: Option<String>,
    pub interval: Seconds,
    pub dry_run: bool,
    pub disabled: bool,
}

/// Why a repository could not be added to the configuration.
#[derive(Debug)]
pub enum InitError {
    Config(ConfigError),
    Repo(RepoError),
}

/// What an [`InitError`] says.
#[verifier::ext_equal]
pub enum InitErrorView {
    Config(ConfigErrorView),
    Repo(RepoErrorView),
}

impl View for InitError {
    type V = InitErrorView;

    open spec fn view(&self) -> InitErrorView {
        match self {
            InitError::Config(error) => InitErrorView::Config(error@),
            InitError::Repo(error) => InitErrorView::Repo(error@),
        }
    }
}

impl InitError {
    /// The words in which the error is reported.
    pub fn message(&self) -> (message: String)
        ensures
            message@ == match self@ {
                InitErrorView::Config(error) => error.message(),
                InitErrorView::Repo(error) => error.message(),
            },
    {
        match self {
            InitError::Config(error) => error.message(),
            InitError::Repo(error) => error.message(),
        }
    }
}

/// The name of a repository that is added: made of the name that was asked
/// for, or the one that is inferred if none was.
pub open spec fn init_name(
    name: Option<Seq<char>>,
    inferred: Result<Seq<char>, ConfigErrorView>,
) -> Result<Seq<char>, ConfigErrorView> {
    match name {
        Some(name) => if sanitized(name).len() > 0 {
            Ok(sanitized(name))
        } else {
            Err(ConfigErrorView::UnusableName)
        },
        None => inferred,
    }
}

/// The directory and the name of a repository that is added, by what was found
/// at its path and by the name that is inferred from it.
pub open spec fn init_target_of(
    args: InitArgs,
    path: Seq<char>,
    probe: PathProbe,
    inferred: Result<Seq<char>, ConfigErrorView>,
) -> Result<(Seq<char>, Seq<char>), InitErrorView> {
    if args.interval.zero_or_less() {
        Err(InitErrorView::Config(ConfigErrorView::IntervalNotPositive))
    } else {
        match resolved(path, probe) {
            Err(error) => Err(InitErrorView::Repo(error)),
            Ok(repo) => match init_name(option_text(args.name), inferred) {
                Err(error) => Err(InitErrorView::Config(error)),
                Ok(name) => Ok((repo, name)),
            },
        }
    }
}

/// The path that leads to a repository, whether it was found or not.
pub open spec fn probed_path(path: Seq<char>, probe: PathProbe) -> Seq<char> {
    match probe {
        PathProbe::Unresolved => path,
        PathProbe::Resolved { canonical, .. } => canonical@,
    }
}

/// What the directory and the name of a repository, or an error, say.
pub open spec fn target_view(target: Result<(String, String), InitError>) -> Result<
    (Seq<char>, Seq<char>),
    InitErrorView,
> {
    match target {
        Ok((path, name)) => Ok((path@, name@)),
        Err(error) => Err(error@),
    }
}

/// The directory and the name of a repository that is added, by what was found
/// at its path and by the name that is inferred from it.
pub fn init_target_in(
    args: &InitArgs,
    path: &str,
    probe: &PathProbe,
    inferred: Result<String, ConfigError>,
) -> (target: Result<(String, String), InitError>)
    ensures
        target_view(target) == init_target_of(*args, path@, *probe, name_view(inferred)),
{
    if args.interval.is_zero_or_less() {
        return Err(InitError::Config(ConfigError::IntervalNotPositive));
    }
    let repo = match resolve_repo(path, probe) {
        Ok(repo) => repo,
        Err(error) => return Err(InitError::Repo(error)),
    };
    match &args.name {
        Some(name) => {
            let name = sanitize_repo_name(name.as_str());
            if name.as_str().is_empty() {
                return Err(InitError::Config(ConfigError::UnusableName));
            }
            Ok((repo, name))
        },
        None => match inferred {
            Ok(name) => Ok((repo, name)),
            Err(error) => Err(InitError::Config(error)),
        },
    }
}

/// The directory and the name of a repository that is added, by what was found
/// at its path.
pub fn init_target(args: &InitArgs, path: &str, probe: &PathProbe) -> (target: Result<
    (String, String),
    InitError,
>)
    ensures
        exists|directory: Option<Seq<char>>| #[trigger]
            is_file_name(probed_path(path@, *probe), directory) && target_view(target)
                == init_target_of(
                *args,
                path@,
                *probe,
                inferred_name(probed_path(path@, *probe), directory),
            ),
{
    let place = match probe {
        PathProbe::Unresolved => path.to_owned(),
        PathProbe::Resolved { canonical, .. } => canonical.clone(),
    };
    let inferred = infer_repo_name(place.as_str());
    let ghost directory = choose|directory: Option<Seq<char>>| #[trigger]
        is_file_name(place@, directory) && name_view(inferred) == inferred_name(
            place@,
            directory,
        );
    assert(is_file_name(probed_path(path@, *probe), directory));
    init_target_in(args, path, probe, inferred)
}

/// The entry of a repository that is added to the configuration.
pub open spec fn added_repository(
    args: InitArgs,
    path: Seq<char>,
    name: Seq<char>,
) -> RepositoryView {
    RepositoryView {
        name,
        path,
        interval_seconds: args.interval,
        enabled: !args.disabled,
        paused: false,
        dry_run: args.dry_run,
        allowed_branches: Seq::empty(),
        quiet_hours: None,
        desktop_notifications: None,
        before_pull_command: None,
        after_pull_command: None,
        on_failure_command: None,
    }
}

/// Whether a configuration is the one that is made where there is none.
pub open spec fn is_first_config(
    config: AppView,
    os: Seq<char>,
    home: Option<Seq<char>>,
    repo: RepositoryView,
) -> bool {
    &&& config.config_version == CURRENT_CONFIG_VERSION
    &&& config.repositories == seq![repo]
    &&& config.defaults.log_file matches Some(path) && is_default_path(
        os,
        home,
        "AppData/Local/repo-auto-puller/repo-auto-puller.log"@,
        "~/.local/state/repo-auto-puller/repo-auto-puller.log"@,
        path,
    )
    &&& config.defaults.state_file matches Some(path) && is_default_path(
        os,
        home,
        "AppData/Local/repo-auto-puller/status.json"@,
        "~/.local/state/repo-auto-puller/status.json"@,
        path,
    )
    &&& config.defaults.history_file matches Some(path) && is_default_path(
        os,
        home,
        "AppData/Local/repo-auto-puller/history.jsonl"@,
        "~/.local/state/repo-auto-puller/history.jsonl"@,
        path,
    )
    &&& !config.defaults.verbose
    &&& config.defaults.desktop_notifications is None
    &&& config.defaults.before_pull_command is None
    &&& config.defaults.after_pull_command is None
    &&& config.defaults.on_failure_command is None
}

/// The configuration with a repository added: to the one that exists, or to a
/// new one with the default places of its files.
pub fn init_config(
    existing: Option<AppConfig>,
    args: &InitArgs,
    repo_path: &str,
    name: &str,
    os: &str,
    home: Option<&str>,
) -> (config: AppConfig)
    ensures
        match existing {
            Some(existing) => config@ == (AppView {
                repositories: upserted(
                    existing@.repositories,
                    added_repository(*args, repo_path@, name@),
                ),
                ..existing@
            }),
            None => is_first_config(
                config@,
                os@,
                option_str(home),
                added_repository(*args, repo_path@, name@),
            ),
        },
{
    let mut config = match existing {
        Some(existing) => existing,
        None => AppConfig {
            config_version: CURRENT_CONFIG_VERSION,
            defaults: DefaultsConfig {
                log_file: Some(default_log_file_path(os, home)),
                state_file: Some(default_state_file_path(os, home)),
                history_file: Some(default_history_file_path(os, home)),
                verbose: false,
                desktop_notifications: None,
                before_pull_command: None,
                after_pull_command: None,
                on_failure_command: None,
            },
            repositories: Vec::new(),
        },
    };
    let repo = RepositoryConfig {
        name: name.to_owned(),
        path: repo_path.to_owned(),
        interval_seconds: args.interval,
        enabled: !args.disabled,
        paused: false,
        dry_run: args.dry_run,
        allowed_branches: Vec::new(),
        quiet_hours: None,
        desktop_notifications: None,
        before_pull_command: None,
        after_pull_command: None,
        on_failure_command: None,
    };
    let ghost before = config@.repositories;
    assert(repo@.allowed_branches =~= Seq::empty());
    assert(repo@ == added_repository(*args, repo_path@, name@));
    upsert_repository(&mut config, repo);
    assert(existing is None ==> upserted(before, repo@) =~= seq![repo@]);
    config
}

/// The text of a truth value.
pub open spec fn truth(value: bool) -> Seq<char> {
    if value {
        "true"@
    } else {
        "false"@
    }
}

/// The text of a truth value.
pub fn truth_text(value: bool) -> (text: &'static str)
    ensures
        text@ == truth(value),
{
    if value {
        "true"
    } else {
        "false"
    }
}

/// What is said when a repository has been added to the configuration that is
/// kept at `location`; `interval` is the interval in words.
pub fn init_summary(
    args: &InitArgs,
    repo_path: &str,
    name: &str,
    location: &str,
    interval: &str,
) -> (text: String)
    ensures
        text@ == "Wrote repository config:\n"@ + "  name: "@ + name@ + "\n  path: "@ + repo_path@
            + "\n  config: "@ + location@ + "\n  interval_seconds: "@ + interval@
            + "\n  enabled: "@ + truth(!args.disabled) + "\n  paused: false\n  dry_run: "@
            + truth(args.dry_run) + "\n  allowed_branches: []\n  quiet_hours: none\n"@,
{
    let mut text = "Wrote repository config:\n".to_owned();
    text.append("  name: ");
    text.append(name);
    text.append("\n  path: ");
    text.append(repo_path);
    text.append("\n  config: ");
    text.append(location);
    text.append("\n  interval_seconds: ");
    text.append(interval);
    text.append("\n  enabled: ");
    text.append(truth_text(!args.disabled));
    text.append("\n  paused: false\n  dry_run: ");
    text.append(truth_text(args.dry_run));
    text.append("\n  allowed_branches: []\n  quiet_hours: none\n");
    text
}

/// The number of enabled repositories.
pub open spec fn enabled_count(repos: Seq<RepositoryView>) -> nat {
    repos.filter(|repo: RepositoryView| repo.enabled).len()
}

/// The number of enabled repositories.
pub fn count_enabled(config: &AppConfig) -> (count: usize)
    ensures
        count == enabled_count(config@.repositories),
{
    let ghost all = config@.repositories;
    let ghost enabled = |repo: RepositoryView| repo.enabled;
    let mut count: usize = 0;
    let mut i: usize = 0;
    proof {
        reveal(Seq::filter);
        assert(all.take(0).filter(enabled) =~= Seq::empty());
    }
    while i < config.repositories.len()
        invariant
            i <= config.repositories.len(),
            all == config@.repositories,
            enabled == (|repo: RepositoryView| repo.enabled),
            count <= i,
            count == all.take(i as int).filter(enabled).len(),
        decreases config.repositories.len() - i,
    {
        proof {
            reveal(Seq::filter);
            assert(all.take(i + 1).drop_last() =~= all.take(i as int));
            assert(all.take(i + 1).last() == config.repositories@[i as int]@);
        }
        if config.repositories[i].enabled {
            count = count + 1;
        }
        i = i + 1;
    }
    assert(all.take(i as int) =~= all);
    count
}

proof fn lemma_place_of(repos: Seq<RepositoryView>, name: Seq<char>, from: int)
    requires
        0 <= from <= repos.len(),
    ensures
        match place_of(repos, name, from) {
            Some(i) => {
                &&& from <= i < repos.len()
                &&& repos[i].name == name
                &&& forall|j: int| from <= j < i ==> (#[trigger] repos[j]).name != name
            },
            None => forall|j: int| from <= j < repos.len() ==> (#[trigger] repos[j]).name != name,
        },
    decreases repos.len() - from,
{
    if from < repos.len() && repos[from].name != name {
        lemma_place_of(repos, name, from + 1);
    }
}

/// The repository with a name.
pub open spec fn named(repos: Seq<RepositoryView>, name: Seq<char>) -> Option<RepositoryView> {
    match place_of(repos, name, 0) {
        Some(i) => Some(repos[i]),
        None => None,
    }
}

/// A repository that was put into the configuration is found under its name,
/// and every other name leads where it led before.
pub proof fn upserted_is_found(repos: Seq<RepositoryView>, repo: RepositoryView, name: Seq<char>)
    ensures
        named(upserted(repos, repo), name) == if name == repo.name {
            Some(repo)
        } else {
            named(repos, name)
        },
{
    let after = upserted(repos, repo);
    lemma_place_of(repos, repo.name, 0);
    lemma_place_of(repos, name, 0);
    lemma_place_of(after, name, 0);
    match place_of(repos, repo.name, 0) {
        Some(i) => {
            assert(after[i] == repo);
            if let Some(j) = place_of(after, name, 0) {
                if name != repo.name {
                    assert(after[j] == repos[j]);
                }
            }
            if let Some(j) = place_of(repos, name, 0) {
                if name != repo.name {
                    assert(after[j] == repos[j]);
                }
            }
        },
        None => {
            assert(after[repos.len() as int] == repo);
            if let Some(j) = place_of(repos, name, 0) {
                assert(after[j] == repos[j]);
            }
            if let Some(j) = place_of(after, name, 0) {
                if j < repos.len() {
                    assert(after[j] == repos[j]);
                }
            }
        },
    }
}

/// Putting a repository into the configuration twice is the same as once.
pub proof fn upserted_twice(repos: Seq<RepositoryView>, repo: RepositoryView)
    ensures
        upserted(upserted(repos, repo), repo) == upserted(repos, repo),
{
    let after = upserted(repos, repo);
    lemma_place_of(repos, repo.name, 0);
    lemma_place_of(after, repo.name, 0);
    upserted_is_found(repos, repo, repo.name);
    let i = place_of(after, repo.name, 0)->0;
    assert(after.update(i, repo) =~= after);
}

/// Whether no two repositories have a name in common.
pub open spec fn names_differ(repos: Seq<RepositoryView>) -> bool {
    forall|i: int, j: int|
        0 <= i < j < repos.len() ==> (#[trigger] repos[i]).name != (#[trigger] repos[j]).name
}

/// Putting a repository into the configuration keeps the names different.
pub proof fn upserted_names_differ(repos: Seq<RepositoryView>, repo: RepositoryView)
    requires
        names_differ(repos),
    ensures
        names_differ(upserted(repos, repo)),
{
    let after = upserted(repos, repo);
    lemma_place_of(repos, repo.name, 0);
    assert forall|i: int, j: int| 0 <= i < j < after.len() implies (#[trigger] after[i]).name != (
    #[trigger] after[j]).name by {
        if j < repos.len() {
            assert(after[i].name == repos[i].name);
            assert(after[j].name == repos[j].name);
        } else {
            assert(after[i] == repos[i]);
        }
    }
}

/// A repository that is paused or resumed is found so under its name, and is
/// otherwise as it was; every other name leads where it led before.
pub proof fn paused_is_found(
    repos: Seq<RepositoryView>,
    name: Seq<char>,
    paused: bool,
    other: Seq<char>,
)
    ensures
        named(with_paused(repos, name, paused), other) == match named(repos, other) {
            Some(repo) => if other == name {
                Some(RepositoryView { paused, ..repo })
            } else {
                Some(repo)
            },
            None => None,
        },
{
    let after = with_paused(repos, name, paused);
    lemma_place_of(repos, name, 0);
    lemma_place_of(repos, other, 0);
    lemma_place_of(after, other, 0);
    assert forall|j: int| 0 <= j < repos.len() implies (#[trigger] after[j]).name
        == repos[j].name by {}
    if let Some(i) = place_of(repos, other, 0) {
        assert(after[i].name == other);
        let k = place_of(after, other, 0)->0;
        assert(repos[k].name == other);
    } else {
        if let Some(k) = place_of(after, other, 0) {
            assert(repos[k].name == other);
        }
    }
}

/// Resuming a repository undoes pausing it, and the other way round.
pub proof fn pausing_is_undone(repos: Seq<RepositoryView>, name: Seq<char>, paused: bool)
    requires
        named(repos, name) matches Some(repo) ==> repo.paused == paused,
    ensures
        with_paused(with_paused(repos, name, !paused), name, paused) == repos,
{
    let between = with_paused(repos, name, !paused);
    lemma_place_of(repos, name, 0);
    lemma_place_of(between, name, 0);
    assert forall|j: int| 0 <= j < repos.len() implies (#[trigger] between[j]).name
        == repos[j].name by {}
    match place_of(repos, name, 0) {
        Some(i) => {
            assert(between[i].name == name);
            let k = place_of(between, name, 0)->0;
            assert(repos[k].name == name);
            assert(with_paused(between, name, paused) =~= repos);
        },
        None => {},
    }
}

/// Pausing or resuming a repository keeps a configuration valid.
pub proof fn pausing_keeps_valid(config: AppView, name: Seq<char>, paused: bool)
    requires
        valid_config(config),
    ensures
        valid_config(
            AppView { repositories: with_paused(config.repositories, name, paused), ..config },
        ),
{
    let repos = config.repositories;
    let after = with_paused(repos, name, paused);
    lemma_place_of(repos, name, 0);
    assert forall|j: int| 0 <= j < after.len() implies {
        &&& (#[trigger] after[j]).name == repos[j].name
        &&& after[j].path == repos[j].path
        &&& valid_repository(after[j])
    } by {
        assert(valid_repository(repos[j]));
    }
}

/// A valid configuration is still valid when it is migrated.
pub proof fn migrating_keeps_valid(config: AppView)
    requires
        valid_config(config),
    ensures
        valid_config(AppView { config_version: CURRENT_CONFIG_VERSION, ..config }),
        valid_config(migrated(config)),
{
}

/// Adding a repository under a name that is not blank, with a positive interval
/// and at a path that no other name has, makes of a valid configuration, or of
/// one without repositories, a valid one.
pub proof fn adding_keeps_valid(config: AppView, args: InitArgs, path: Seq<char>, name: Seq<char>)
    requires
        valid_config(config) || config.repositories.len() == 0 && config.config_version
            <= CURRENT_CONFIG_VERSION,
        !args.interval.zero_or_less(),
        trimmed(name).len() > 0,
        forall|i: int|
            0 <= i < config.repositories.len() && (#[trigger] config.repositories[i]).name != name
                ==> config.repositories[i].path != path,
    ensures
        valid_config(
            AppView {
                repositories: upserted(config.repositories, added_repository(args, path, name)),
                ..config
            },
        ),
{
    let repos = config.repositories;
    let repo = added_repository(args, path, name);
    let after = upserted(repos, repo);
    lemma_place_of(repos, name, 0);
    upserted_names_differ(repos, repo);
    assert forall|j: int| 0 <= j < after.len() implies valid_repository(#[trigger] after[j]) by {
        if after[j] != repo {
            assert(after[j] == repos[j]);
            assert(valid_repository(repos[j]));
        }
    }
    assert forall|i: int, j: int| 0 <= i < j < after.len() implies (#[trigger] after[i]).path != (
    #[trigger] after[j]).path by {
        assert(after[i].name != after[j].name);
        if after[i] != repo {
            assert(after[i] == repos[i]);
        }
        if after[j] != repo {
            assert(after[j] == repos[j]);
        }
    }
}

/// A name that is given to a repository is not blank.
pub proof fn init_names_are_not_blank(name: Seq<char>)
    requires
        sanitized(name).len() > 0,
    ensures
        trimmed(sanitized(name)).len() > 0,
{
    names_are_clean(name);
    let clean = sanitized(name);
    assert(!white_space(clean[0]));
    assert(!white_space(clean[clean.len() - 1]));
    assert(trim_start(clean) == clean);
    assert(trim_end(clean) == clean);
}

proof fn lemma_filtered_is_contained(
    repos: Seq<RepositoryView>,
    wanted: spec_fn(RepositoryView) -> bool,
    i: int,
)
    requires
        0 <= i < repos.filter(wanted).len(),
    ensures
        repos.contains(repos.filter(wanted)[i]),
    decreases repos.len(),
{
    reveal(Seq::filter);
    let rest = repos.drop_last();
    if i < rest.filter(wanted).len() {
        lemma_filtered_is_contained(rest, wanted, i);
        let k = choose|k: int| 0 <= k < rest.len() && rest[k] == rest.filter(wanted)[i];
        assert(repos[k] == rest[k]);
    } else {
        assert(repos[repos.len() - 1] == repos.last());
    }
}

/// A chosen repository is in the configuration, enabled and asked for, and
/// every repository of that kind is chosen, paused or not.
pub proof fn selection_is_exact(config: AppView, names: Seq<Seq<char>>, repo: RepositoryView)
    ensures
        selection(config, names).contains(with_defaults(repo, config.defaults)) <==> {
            &&& config.repositories.contains(repo)
            &&& is_wanted(repo, names)
        },
{
    let wanted = |repo: RepositoryView| is_wanted(repo, names);
    let filled = |repo: RepositoryView| with_defaults(repo, config.defaults);
    let kept = config.repositories.filter(wanted);
    let chosen = selection(config, names);
    broadcast use {Seq::lemma_filter_pred, Seq::lemma_filter_contains};

    if chosen.contains(filled(repo)) {
        let i = choose|i: int| 0 <= i < chosen.len() && chosen[i] == filled(repo);
        assert(chosen[i] == filled(kept[i]));
        assert(kept[i] == repo);
        assert(kept.contains(repo));
        assert(wanted(kept[i]));
        lemma_filtered_is_contained(config.repositories, wanted, i);
    }
    if config.repositories.contains(repo) && is_wanted(repo, names) {
        let i = choose|i: int|
            0 <= i < config.repositories.len() && config.repositories[i] == repo;
        assert(wanted(config.repositories[i]));
        assert(kept.contains(repo));
        let k = choose|k: int| 0 <= k < kept.len() && kept[k] == repo;
        assert(chosen[k] == filled(repo));
    }
}

proof fn lemma_selection(config: AppView, names: Seq<Seq<char>>, i: int)
    requires
        0 <= i < selection(config, names).len(),
    ensures
        config.repositories.contains(selection(config, names)[i].config),
        is_wanted(selection(config, names)[i].config, names),
        selection(config, names)[i] == with_defaults(
            selection(config, names)[i].config,
            config.defaults,
        ),
{
    let wanted = |repo: RepositoryView| is_wanted(repo, names);
    let kept = config.repositories.filter(wanted);
    broadcast use {Seq::lemma_filter_pred, Seq::lemma_filter_contains};

    assert(selection(config, names)[i] == with_defaults(kept[i], config.defaults));
    assert(wanted(kept[i]));
    lemma_filtered_is_contained(config.repositories, wanted, i);
}

/// A chosen repository stands in the configuration, is enabled, and was asked
/// for if any was; each of its three commands is its own where it has one,
/// whatever the defaults say, and that of the defaults where it has none.
pub proof fn own_commands_come_first(config: AppView, names: Seq<Seq<char>>, i: int)
    requires
        0 <= i < selection(config, names).len(),
    ensures
        ({
            let chosen = selection(config, names)[i];
            let own = chosen.config;
            let general = config.defaults;
            &&& config.repositories.contains(own)
            &&& own.enabled
            &&& names.len() > 0 ==> names.contains(own.name)
            &&& own.before_pull_command is Some ==> chosen.before_pull_command
                == own.before_pull_command
            &&& own.before_pull_command is None ==> chosen.before_pull_command
                == general.before_pull_command
            &&& own.after_pull_command is Some ==> chosen.after_pull_command
                == own.after_pull_command
            &&& own.after_pull_command is None ==> chosen.after_pull_command
                == general.after_pull_command
            &&& own.on_failure_command is Some ==> chosen.on_failure_command
                == own.on_failure_command
            &&& own.on_failure_command is None ==> chosen.on_failure_command
                == general.on_failure_command
        }),
{
    lemma_selection(config, names, i);
}

/// What a chosen repository says of notifications holds, whatever the defaults
/// say, and each thing that it does not say is taken from the defaults; where
/// neither says it, nothing is notified.
pub proof fn own_notifications_come_first(config: AppView, names: Seq<Seq<char>>, i: int)
    requires
        0 <= i < selection(config, names).len(),
    ensures
        ({
            let chosen = selection(config, names)[i];
            let settings = chosen.notification_settings;
            let own = chosen.config.desktop_notifications;
            let general = config.defaults.desktop_notifications;
            &&& own matches Some(own) ==> {
                &&& own.on_pull matches Some(on) ==> settings.on_pull == on
                &&& own.on_failure matches Some(on) ==> settings.on_failure == on
                &&& own.command is Some ==> settings.command == own.command
            }
            &&& general matches Some(general) ==> {
                &&& own is None || own->0.on_pull is None ==> settings.on_pull == (general.on_pull
                    == Some(true))
                &&& own is None || own->0.on_failure is None ==> settings.on_failure == (
                general.on_failure == Some(true))
                &&& own is None || own->0.command is None ==> settings.command == general.command
            }
            &&& general is None ==> {
                &&& own is None || own->0.on_pull is None ==> !settings.on_pull
                &&& own is None || own->0.on_failure is None ==> !settings.on_failure
                &&& own is None || own->0.command is None ==> settings.command is None
            }
        }),
{
    lemma_selection(config, names, i);
}

/// Every repository that is enabled, and asked for if any is, is chosen, and
/// those that are chosen come in the order of the configuration.
pub proof fn chosen_repositories_are_complete(
    config: AppView,
    names: Seq<Seq<char>>,
    i: int,
    j: int,
)
    requires
        0 <= i < j < config.repositories.len(),
        config.repositories[i].enabled,
        config.repositories[j].enabled,
        names.len() == 0 || names.contains(config.repositories[i].name) && names.contains(
            config.repositories[j].name,
        ),
    ensures
        exists|a: int, b: int|
            0 <= a < b < selection(config, names).len() && (#[trigger] selection(
                config,
                names,
            )[a]).config == config.repositories[i] && (#[trigger] selection(config, names)[b]).config
                == config.repositories[j],
{
    let wanted = |repo: RepositoryView| is_wanted(repo, names);
    let repos = config.repositories;
    let kept = repos.filter(wanted);
    let (a, b) = lemma_filter_keeps_order(repos, wanted, i, j);
    assert(selection(config, names)[a].config == kept[a]);
    assert(selection(config, names)[b].config == kept[b]);
}

proof fn lemma_filter_keeps(
    repos: Seq<RepositoryView>,
    wanted: spec_fn(RepositoryView) -> bool,
    i: int,
) -> (a: int)
    requires
        0 <= i < repos.len(),
        wanted(repos[i]),
    ensures
        0 <= a < repos.filter(wanted).len(),
        repos.filter(wanted)[a] == repos[i],
    decreases repos.len(),
{
    reveal(Seq::filter);
    let rest = repos.drop_last();
    if i < rest.len() {
        assert(rest[i] == repos[i]);
        lemma_filter_keeps(rest, wanted, i)
    } else {
        assert(repos.last() == repos[i]);
        rest.filter(wanted).len() as int
    }
}

proof fn lemma_filter_keeps_order(
    repos: Seq<RepositoryView>,
    wanted: spec_fn(RepositoryView) -> bool,
    i: int,
    j: int,
) -> (places: (int, int))
    requires
        0 <= i < j < repos.len(),
        wanted(repos[i]),
        wanted(repos[j]),
    ensures
        0 <= places.0 < places.1 < repos.filter(wanted).len(),
        repos.filter(wanted)[places.0] == repos[i],
        repos.filter(wanted)[places.1] == repos[j],
    decreases repos.len(),
{
    reveal(Seq::filter);
    let rest = repos.drop_last();
    assert(rest[i] == repos[i]);
    if j < rest.len() {
        assert(rest[j] == repos[j]);
        lemma_filter_keeps_order(rest, wanted, i, j)
    } else {
        assert(repos.last() == repos[j]);
        let a = lemma_filter_keeps(rest, wanted, i);
        (a, rest.filter(wanted).len() as int)
    }
}

/// No repository is chosen that is not enabled or not asked for: there is
/// nothing to choose exactly if there is no such repository.
pub proof fn nothing_else_is_chosen(config: AppView, names: Seq<Seq<char>>)
    ensures
        selection(config, names).len() == 0 <==> forall|i: int|
            0 <= i < config.repositories.len() ==> !(#[trigger] config.repositories[i]).enabled || (
            names.len() > 0 && !names.contains(config.repositories[i].name)),
{
    let wanted = |repo: RepositoryView| is_wanted(repo, names);
    let repos = config.repositories;
    if selection(config, names).len() > 0 {
        lemma_selection(config, names, 0);
        let own = selection(config, names)[0].config;
        let i = choose|i: int| 0 <= i < repos.len() && repos[i] == own;
        assert(repos[i].enabled);
    } else {
        assert forall|i: int| 0 <= i < repos.len() implies !(#[trigger] repos[i]).enabled || (
        names.len() > 0 && !names.contains(repos[i].name)) by {
            if wanted(repos[i]) {
                let a = lemma_filter_keeps(repos, wanted, i);
            }
        }
    }
}

/// Putting a repository into a configuration changes no repository of another
/// name, keeps all in their places, and makes one more exactly where none has
/// the name.
pub proof fn others_stay_when_one_is_put(repos: Seq<RepositoryView>, repo: RepositoryView)
    ensures
        ({
            let after = upserted(repos, repo);
            let known = exists|i: int| 0 <= i < repos.len() && (#[trigger] repos[i]).name
                == repo.name;
            &&& after.contains(repo)
            &&& after.len() == repos.len() + if known {
                0int
            } else {
                1
            }
            &&& !known ==> after.last() == repo
            &&& forall|i: int|
                0 <= i < repos.len() ==> (#[trigger] after[i]).name == repos[i].name
            &&& forall|i: int|
                0 <= i < repos.len() && repos[i].name != repo.name ==> #[trigger] after[i]
                    == repos[i]
        }),
{
    let after = upserted(repos, repo);
    lemma_place_of(repos, repo.name, 0);
    match place_of(repos, repo.name, 0) {
        Some(i) => {
            assert(after[i] == repo);
        },
        None => {
            assert(after[repos.len() as int] == repo);
        },
    }
}

/// Pausing or resuming a repository changes no other and nothing else of it: it
/// is the first with the name, and is then paused or not as was asked.
pub proof fn others_stay_when_one_is_paused(
    repos: Seq<RepositoryView>,
    name: Seq<char>,
    paused: bool,
    i: int,
)
    requires
        0 <= i < repos.len(),
    ensures
        ({
            let after = with_paused(repos, name, paused);
            let before = repos[i];
            let first = before.name == name && forall|j: int|
                0 <= j < i ==> (#[trigger] repos[j]).name != name;
            &&& after.len() == repos.len()
            &&& !first ==> after[i] == before
            &&& first ==> {
                &&& after[i].paused == paused
                &&& after[i].name == before.name
                &&& after[i].path == before.path
                &&& after[i].interval_seconds == before.interval_seconds
                &&& after[i].enabled == before.enabled
                &&& after[i].dry_run == before.dry_run
                &&& after[i].allowed_branches == before.allowed_branches
                &&& after[i].quiet_hours == before.quiet_hours
                &&& after[i].desktop_notifications == before.desktop_notifications
                &&& after[i].before_pull_command == before.before_pull_command
                &&& after[i].after_pull_command == before.after_pull_command
                &&& after[i].on_failure_command == before.on_failure_command
            }
        }),
{
    lemma_place_of(repos, name, 0);
    if let Some(k) = place_of(repos, name, 0) {
        assert(repos[k].name == name);
    }
}

/// A repository is known by a name exactly if one has it.
pub proof fn known_names_are_found(repos: Seq<RepositoryView>, name: Seq<char>)
    ensures
        place_of(repos, name, 0) is Some <==> exists|i: int|
            0 <= i < repos.len() && (#[trigger] repos[i]).name == name,
        named(repos, name) matches Some(repo) ==> repo.name == name && repos.contains(repo),
{
    lemma_place_of(repos, name, 0);
}

/// What is said of a pause names the repository, and is not what is said of a
/// resumption.
pub proof fn pauses_are_told(name: Seq<char>)
    ensures
        "Paused"@.is_prefix_of(pause_message(name, true)),
        "Resumed"@.is_prefix_of(pause_message(name, false)),
        name.is_suffix_of(pause_message(name, true)),
        name.is_suffix_of(pause_message(name, false)),
{
    let a = pause_message(name, true);
    let b = pause_message(name, false);
    assert("Paused"@ =~= a.subrange(0, "Paused"@.len() as int));
    assert("Resumed"@ =~= b.subrange(0, "Resumed"@.len() as int));
    assert(name =~= a.subrange(a.len() - name.len(), a.len() as int));
    assert(name =~= b.subrange(b.len() - name.len(), b.len() as int));
}

/// A repository that is added is as it was asked for: at the path, under the
/// name, at the interval, enabled unless it is to be disabled, and dry if it is
/// to be; it is not paused, and nothing else of it is set.
pub proof fn added_repositories_are_as_asked(
    args: InitArgs,
    path: Seq<char>,
    name: Seq<char>,
)
    ensures
        ({
            let repo = added_repository(args, path, name);
            &&& repo.path == path
            &&& repo.name == name
            &&& repo.interval_seconds == args.interval
            &&& repo.enabled <==> !args.disabled
            &&& repo.dry_run == args.dry_run
            &&& !repo.paused
            &&& repo.allowed_branches.len() == 0
            &&& repo.quiet_hours is None
            &&& repo.desktop_notifications is None
            &&& repo.before_pull_command is None && repo.after_pull_command is None
            &&& repo.on_failure_command is None
        }),
{
}

/// A repository is added exactly where the interval is positive, a repository
/// is at the path, and a name is left of what was asked for or inferred; it is
/// where the path leads.
pub proof fn only_repositories_are_added(
    args: InitArgs,
    path: Seq<char>,
    probe: PathProbe,
    inferred: Result<Seq<char>, ConfigErrorView>,
)
    ensures
        ({
            let target = init_target_of(args, path, probe, inferred);
            let there = probe matches PathProbe::Resolved { has_git: true, .. };
            &&& target is Ok <==> {
                &&& !args.interval.zero_or_less()
                &&& there
                &&& args.name matches Some(name) ==> sanitized(name@).len() > 0
                &&& args.name is None ==> inferred is Ok
            }
            &&& target matches Ok((repo, name)) ==> {
                &&& probe matches PathProbe::Resolved { canonical, .. } && repo == canonical@
                &&& args.name matches Some(asked) ==> name == sanitized(asked@)
                &&& args.name is None ==> inferred == Ok::<Seq<char>, ConfigErrorView>(name)
            }
            &&& args.interval.zero_or_less() ==> target == Err::<
                (Seq<char>, Seq<char>),
                InitErrorView,
            >(InitErrorView::Config(ConfigErrorView::IntervalNotPositive))
        }),
{
}

/// One repository more is one more enabled one exactly if it is enabled.
pub proof fn enabled_repositories_are_counted(repos: Seq<RepositoryView>, repo: RepositoryView)
    ensures
        enabled_count(Seq::empty()) == 0,
        enabled_count(repos.push(repo)) == enabled_count(repos) + if repo.enabled {
            1nat
        } else {
            0
        },
{
    reveal(Seq::filter);
    let enabled = |repo: RepositoryView| repo.enabled;
    assert(Seq::<RepositoryView>::empty().filter(enabled) =~= Seq::empty());
    assert(repos.push(repo).drop_last() =~= repos);
    assert(repos.push(repo).last() == repo);
}

/// Truth is told apart from falsehood.
pub proof fn truths_are_told_apart(value: bool)
    ensures
        truth(value) == "true"@ <==> value,
        truth(value) == "false"@ <==> !value,
{
    reveal_strlit("true");
    reveal_strlit("false");
    assert("true"@.len() == 4 && "false"@.len() == 5);
}

/// Migrating a configuration brings it to the first version and changes nothing
/// else, and a second time changes nothing.
pub proof fn migrating_changes_the_version(config: AppView)
    ensures
        migrated(config).config_version == 1,
        migrated(config).defaults == config.defaults,
        migrated(config).repositories == config.repositories,
        migrated(migrated(config)) == migrated(config),
{
}

/// A repository that is enabled, and asked for if any is, is chosen.
pub proof fn wanted_repositories_are_chosen(config: AppView, names: Seq<Seq<char>>, i: int)
    requires
        0 <= i < config.repositories.len(),
        config.repositories[i].enabled,
        names.len() == 0 || names.contains(config.repositories[i].name),
    ensures
        exists|a: int|
            0 <= a < selection(config, names).len() && (#[trigger] selection(
                config,
                names,
            )[a]).config == config.repositories[i],
{
    let wanted = |repo: RepositoryView| is_wanted(repo, names);
    let a = lemma_filter_keeps(config.repositories, wanted, i);
    assert(selection(config, names)[a].config == config.repositories.filter(wanted)[a]);
}

} // verus!
