//! When a configuration is valid.

use crate::config::{
    repository_views, AppConfig, AppView, RepositoryConfig, RepositoryView,
    CURRENT_CONFIG_VERSION,
};
use crate::quiet::{clock_time, parse_quiet_time, quiet_window, QuietTimeError};
use crate::text::{
    all_white, blank_texts_are_white, decimal, decimal_text, holds, is_around, is_blank, join,
    joined, texts, trimmed,
};
use vstd::prelude::*;

verus! {

/// What is wrong with a configuration, or with a request to change it.
#[derive(Debug)]
pub enum ConfigError {
    /// The configuration was written for a later version.
    NewerVersion { version: u32 },
    /// There are no repositories.
    NoRepositories,
    /// A repository has no name.
    EmptyName,
    /// Two repositories have the same name.
    DuplicateName { name: String },
    /// The interval of a repository is not positive.
    InvalidInterval { name: String },
    /// A repository allows a branch that has no name.
    EmptyBranch { name: String },
    /// A repository allows the same branch twice.
    DuplicateBranch { name: String, branch: String },
    /// The quiet hours of a repository start at no time of the day.
    InvalidQuietStart { name: String, error: QuietTimeError },
    /// The quiet hours of a repository end at no time of the day.
    InvalidQuietEnd { name: String, error: QuietTimeError },
    /// The quiet hours of a repository end when they start.
    IdenticalQuietHours { name: String },
    /// Two repositories have the same path.
    DuplicatePath { path: String },
    /// No repository has the name that was asked for.
    UnknownRepository { name: String },
    /// No repository is enabled.
    NoneEnabled,
    /// No enabled repository has one of the names that were asked for.
    NoneSelected { names: Vec<String> },
    /// The interval that was asked for is not positive.
    IntervalNotPositive,
    /// Nothing is left of the name that was asked for.
    UnusableName,
    /// No name can be made of a path.
    NameNotInferred { path: String },
}

/// What a [`ConfigError`] says.
#[verifier::ext_equal]
pub enum ConfigErrorView {
    NewerVersion { version: u32 },
    NoRepositories,
    EmptyName,
    DuplicateName { name: Seq<char> },
    InvalidInterval { name: Seq<char> },
    EmptyBranch { name: Seq<char> },
    DuplicateBranch { name: Seq<char>, branch: Seq<char> },
    InvalidQuietStart { name: Seq<char>, value: Seq<char> },
    InvalidQuietEnd { name: Seq<char>, value: Seq<char> },
    IdenticalQuietHours { name: Seq<char> },
    DuplicatePath { path: Seq<char> },
    UnknownRepository { name: Seq<char> },
    NoneEnabled,
    NoneSelected { names: Seq<Seq<char>> },
    IntervalNotPositive,
    UnusableName,
    NameNotInferred { path: Seq<char> },
}

impl View for ConfigError {
    type V = ConfigErrorView;

    open spec fn view(&self) -> ConfigErrorView {
        match self {
            ConfigError::NewerVersion { version } => ConfigErrorView::NewerVersion {
                version: *version,
            },
            ConfigError::NoRepositories => ConfigErrorView::NoRepositories,
            ConfigError::EmptyName => ConfigErrorView::EmptyName,
            ConfigError::DuplicateName { name } => ConfigErrorView::DuplicateName { name: name@ },
            ConfigError::InvalidInterval { name } => ConfigErrorView::InvalidInterval {
                name: name@,
            },
            ConfigError::EmptyBranch { name } => ConfigErrorView::EmptyBranch { name: name@ },
            ConfigError::DuplicateBranch { name, branch } => ConfigErrorView::DuplicateBranch {
                name: name@,
                branch: branch@,
            },
            ConfigError::InvalidQuietStart { name, error } => ConfigErrorView::InvalidQuietStart {
                name: name@,
                value: error.value@,
            },
            ConfigError::InvalidQuietEnd { name, error } => ConfigErrorView::InvalidQuietEnd {
                name: name@,
                value: error.value@,
            },
            ConfigError::IdenticalQuietHours { name } => ConfigErrorView::IdenticalQuietHours {
                name: name@,
            },
            ConfigError::DuplicatePath { path } => ConfigErrorView::DuplicatePath { path: path@ },
            ConfigError::UnknownRepository { name } => ConfigErrorView::UnknownRepository {
                name: name@,
            },
            ConfigError::NoneEnabled => ConfigErrorView::NoneEnabled,
            ConfigError::NoneSelected { names } => ConfigErrorView::NoneSelected {
                names: texts(names@),
            },
            ConfigError::IntervalNotPositive => ConfigErrorView::IntervalNotPositive,
            ConfigError::UnusableName => ConfigErrorView::UnusableName,
            ConfigError::NameNotInferred { path } => ConfigErrorView::NameNotInferred {
                path: path@,
            },
        }
    }
}

impl ConfigErrorView {
    /// The words in which an error is reported.
    pub open spec fn message(self) -> Seq<char> {
        match self {
            ConfigErrorView::NewerVersion { version } => "config_version "@ + decimal(
                version as nat,
            ) + " is newer than this binary supports ("@ + decimal(CURRENT_CONFIG_VERSION as nat)
                + ")"@,
            ConfigErrorView::NoRepositories => "config has no repositories"@,
            ConfigErrorView::EmptyName => "repository names must not be empty"@,
            ConfigErrorView::DuplicateName { name } => "duplicate repository name: "@ + name,
            ConfigErrorView::InvalidInterval { name } => "repository "@ + name
                + " has invalid interval_seconds"@,
            ConfigErrorView::EmptyBranch { name } => "repository "@ + name
                + " has an empty allowed_branches entry"@,
            ConfigErrorView::DuplicateBranch { name, branch } => "repository "@ + name
                + " has duplicate allowed_branches entry: "@ + branch,
            ConfigErrorView::InvalidQuietStart { name, value } => "repository "@ + name
                + " has invalid quiet_hours.start "@ + value,
            ConfigErrorView::InvalidQuietEnd { name, value } => "repository "@ + name
                + " has invalid quiet_hours.end "@ + value,
            ConfigErrorView::IdenticalQuietHours { name } => "repository "@ + name
                + " has quiet_hours with identical start and end"@,
            ConfigErrorView::DuplicatePath { path } => "duplicate repository path: "@ + path,
            ConfigErrorView::UnknownRepository { name } => "repository not found in config: "@
                + name,
            ConfigErrorView::NoneEnabled => "no enabled repositories found in config"@,
            ConfigErrorView::NoneSelected { names } =>
            "no repositories matched the requested names: "@ + joined(names, ", "@),
            ConfigErrorView::IntervalNotPositive => "--interval must be greater than 0"@,
            ConfigErrorView::UnusableName =>
            "repository name must contain at least one alphanumeric character"@,
            ConfigErrorView::NameNotInferred { path } =>
            "failed to infer repository name from path "@ + path,
        }
    }
}

/// A text of three parts.
fn three(a: &str, b: &str, c: &str) -> (text: String)
    ensures
        text@ == a@ + b@ + c@,
{
    a.to_owned().concat(b).concat(c)
}

impl ConfigError {
    /// The words in which the error is reported.
    pub fn message(&self) -> (message: String)
        ensures
            message@ == self@.message(),
    {
        match self {
            ConfigError::NewerVersion { version } => three(
                "config_version ",
                decimal_text(*version as u64).as_str(),
                " is newer than this binary supports (",
            ).concat(decimal_text(CURRENT_CONFIG_VERSION as u64).as_str()).concat(")"),
            ConfigError::NoRepositories => "config has no repositories".to_owned(),
            ConfigError::EmptyName => "repository names must not be empty".to_owned(),
            ConfigError::DuplicateName { name } => "duplicate repository name: ".to_owned().concat(
                name.as_str(),
            ),
            ConfigError::InvalidInterval { name } => three(
                "repository ",
                name.as_str(),
                " has invalid interval_seconds",
            ),
            ConfigError::EmptyBranch { name } => three(
                "repository ",
                name.as_str(),
                " has an empty allowed_branches entry",
            ),
            ConfigError::DuplicateBranch { name, branch } => three(
                "repository ",
                name.as_str(),
                " has duplicate allowed_branches entry: ",
            ).concat(branch.as_str()),
            ConfigError::InvalidQuietStart { name, error } => three(
                "repository ",
                name.as_str(),
                " has invalid quiet_hours.start ",
            ).concat(error.value.as_str()),
            ConfigError::InvalidQuietEnd { name, error } => three(
                "repository ",
                name.as_str(),
                " has invalid quiet_hours.end ",
            ).concat(error.value.as_str()),
            ConfigError::IdenticalQuietHours { name } => three(
                "repository ",
                name.as_str(),
                " has quiet_hours with identical start and end",
            ),
            ConfigError::DuplicatePath { path } => "duplicate repository path: ".to_owned().concat(
                path.as_str(),
            ),
            ConfigError::UnknownRepository { name } =>
            "repository not found in config: ".to_owned().concat(name.as_str()),
            ConfigError::NoneEnabled => "no enabled repositories found in config".to_owned(),
            ConfigError::NoneSelected { names } =>
            "no repositories matched the requested names: ".to_owned().concat(
                join(names.as_slice(), ", ").as_str(),
            ),
            ConfigError::IntervalNotPositive => "--interval must be greater than 0".to_owned(),
            ConfigError::UnusableName =>
            "repository name must contain at least one alphanumeric character".to_owned(),
            ConfigError::NameNotInferred { path } =>
            "failed to infer repository name from path ".to_owned().concat(path.as_str()),
        }
    }
}

/// What is wrong with the first allowed branch of a repository, among the
/// first `n`, with which something is wrong.
pub open spec fn branch_error(repo: RepositoryView, n: nat) -> Option<ConfigErrorView>
    decreases n,
{
    if n == 0 {
        None
    } else {
        match branch_error(repo, (n - 1) as nat) {
            Some(error) => Some(error),
            None => {
                let branch = repo.allowed_branches[n - 1];
                if trimmed(branch).len() == 0 {
                    Some(ConfigErrorView::EmptyBranch { name: repo.name })
                } else if exists|j: int|
                    0 <= j < n - 1 && #[trigger] repo.allowed_branches[j] == branch {
                    Some(ConfigErrorView::DuplicateBranch { name: repo.name, branch })
                } else {
                    None
                }
            },
        }
    }
}

/// What is wrong with the quiet hours of a repository.
pub open spec fn quiet_error(repo: RepositoryView) -> Option<ConfigErrorView> {
    match repo.quiet_hours {
        None => None,
        Some(hours) => match clock_time(hours.start) {
            None => Some(
                ConfigErrorView::InvalidQuietStart { name: repo.name, value: hours.start },
            ),
            Some(start) => match clock_time(hours.end) {
                None => Some(
                    ConfigErrorView::InvalidQuietEnd { name: repo.name, value: hours.end },
                ),
                Some(end) => if start == end {
                    Some(ConfigErrorView::IdenticalQuietHours { name: repo.name })
                } else {
                    None
                },
            },
        },
    }
}

/// Whether a repository before the one at `i` has its name.
pub open spec fn name_taken(repos: Seq<RepositoryView>, i: int) -> bool {
    exists|j: int| 0 <= j < i && (#[trigger] repos[j]).name == repos[i].name
}

/// Whether a repository before the one at `i` has its path.
pub open spec fn path_taken(repos: Seq<RepositoryView>, i: int) -> bool {
    exists|j: int| 0 <= j < i && (#[trigger] repos[j]).path == repos[i].path
}

/// What is wrong with the repository at `i`.
pub open spec fn repository_error(repos: Seq<RepositoryView>, i: int) -> Option<ConfigErrorView> {
    let repo = repos[i];
    if trimmed(repo.name).len() == 0 {
        Some(ConfigErrorView::EmptyName)
    } else if name_taken(repos, i) {
        Some(ConfigErrorView::DuplicateName { name: repo.name })
    } else if repo.interval_seconds.zero_or_less() {
        Some(ConfigErrorView::InvalidInterval { name: repo.name })
    } else if branch_error(repo, repo.allowed_branches.len()) is Some {
        branch_error(repo, repo.allowed_branches.len())
    } else if quiet_error(repo) is Some {
        quiet_error(repo)
    } else if path_taken(repos, i) {
        Some(ConfigErrorView::DuplicatePath { path: repo.path })
    } else {
        None
    }
}

/// What is wrong with the first repository, among the first `n`, with which
/// something is wrong.
pub open spec fn repositories_error(repos: Seq<RepositoryView>, n: nat) -> Option<ConfigErrorView>
    decreases n,
{
    if n == 0 {
        None
    } else {
        match repositories_error(repos, (n - 1) as nat) {
            Some(error) => Some(error),
            None => repository_error(repos, n - 1),
        }
    }
}

/// What is wrong with a configuration.
pub open spec fn schema_error(config: AppView) -> Option<ConfigErrorView> {
    if config.config_version > CURRENT_CONFIG_VERSION {
        Some(ConfigErrorView::NewerVersion { version: config.config_version })
    } else if config.repositories.len() == 0 {
        Some(ConfigErrorView::NoRepositories)
    } else {
        repositories_error(config.repositories, config.repositories.len())
    }
}

/// What an error or its absence says.
pub open spec fn checked(result: Result<(), ConfigError>) -> Option<ConfigErrorView> {
    match result {
        Ok(_) => None,
        Err(error) => Some(error@),
    }
}

/// Checks the allowed branches of a repository.
fn check_branches(repo: &RepositoryConfig) -> (result: Result<(), ConfigError>)
    ensures
        checked(result) == branch_error(repo@, repo@.allowed_branches.len()),
{
    let branches = &repo.allowed_branches;
    let mut i: usize = 0;
    while i < branches.len()
        invariant
            branches == &repo.allowed_branches,
            i <= branches.len(),
            branch_error(repo@, i as nat) is None,
        decreases branches.len() - i,
    {
        let branch = &branches[i];
        proof {
            lemma_branch_error_stays(repo@, (i + 1) as nat, branches.len() as nat);
            assert(repo@.allowed_branches[i as int] == branch@);
        }
        if is_blank(branch.as_str()) {
            return Err(ConfigError::EmptyBranch { name: repo.name.clone() });
        }
        let mut j: usize = 0;
        while j < i
            invariant
                branches == &repo.allowed_branches,
                j <= i < branches.len(),
                branch@ == repo@.allowed_branches[i as int],
                trimmed(branch@).len() > 0,
                branch_error(repo@, i as nat) is None,
                branch_error(repo@, (i + 1) as nat) is Some ==> branch_error(
                    repo@,
                    branches.len() as nat,
                ) == branch_error(repo@, (i + 1) as nat),
                forall|k: int| 0 <= k < j ==> #[trigger] repo@.allowed_branches[k] != branch@,
            decreases i - j,
        {
            assert(repo@.allowed_branches[j as int] == branches@[j as int]@);
            if branches[j] == *branch {
                return Err(
                    ConfigError::DuplicateBranch {
                        name: repo.name.clone(),
                        branch: branch.clone(),
                    },
                );
            }
            j = j + 1;
        }
        i = i + 1;
    }
    Ok(())
}

proof fn lemma_branch_error_stays(repo: RepositoryView, i: nat, n: nat)
    requires
        i <= n,
    ensures
        branch_error(repo, i) is Some ==> branch_error(repo, n) == branch_error(repo, i),
    decreases n - i,
{
    if i < n {
        lemma_branch_error_stays(repo, i, (n - 1) as nat);
    }
}

proof fn lemma_repositories_error_stays(repos: Seq<RepositoryView>, i: nat, n: nat)
    requires
        i <= n,
    ensures
        repositories_error(repos, i) is Some ==> repositories_error(repos, n)
            == repositories_error(repos, i),
    decreases n - i,
{
    if i < n {
        lemma_repositories_error_stays(repos, i, (n - 1) as nat);
    }
}

/// Checks the quiet hours of a repository.
fn check_quiet_hours(repo: &RepositoryConfig) -> (result: Result<(), ConfigError>)
    ensures
        checked(result) == quiet_error(repo@),
{
    let hours = match &repo.quiet_hours {
        Some(hours) => hours,
        None => return Ok(()),
    };
    let start: u32 = match parse_quiet_time(hours.start.as_str()) {
        Ok(start) => start,
        Err(error) => return Err(
            ConfigError::InvalidQuietStart { name: repo.name.clone(), error },
        ),
    };
    let end: u32 = match parse_quiet_time(hours.end.as_str()) {
        Ok(end) => end,
        Err(error) => return Err(
            ConfigError::InvalidQuietEnd { name: repo.name.clone(), error },
        ),
    };
    if start == end {
        return Err(ConfigError::IdenticalQuietHours { name: repo.name.clone() });
    }
    Ok(())
}

/// Checks the repository at `i`.
fn check_repository(repos: &Vec<RepositoryConfig>, i: usize) -> (result: Result<(), ConfigError>)
    requires
        i < repos.len(),
    ensures
        checked(result) == repository_error(repository_views(repos@), i as int),
{
    let ghost views = repository_views(repos@);
    let repo = &repos[i];
    assert(views[i as int] == repo@);
    if is_blank(repo.name.as_str()) {
        return Err(ConfigError::EmptyName);
    }
    let mut taken_name = false;
    let mut taken_path = false;
    let mut j: usize = 0;
    while j < i
        invariant
            j <= i < repos.len(),
            views == repository_views(repos@),
            repo == &repos[i as int],
            taken_name == exists|k: int| 0 <= k < j && (#[trigger] views[k]).name == repo@.name,
            taken_path == exists|k: int| 0 <= k < j && (#[trigger] views[k]).path == repo@.path,
        decreases i - j,
    {
        assert(views[j as int] == repos@[j as int]@);
        if repos[j].name == repo.name {
            taken_name = true;
        }
        if repos[j].path == repo.path {
            taken_path = true;
        }
        j = j + 1;
    }
    if taken_name {
        return Err(ConfigError::DuplicateName { name: repo.name.clone() });
    }
    if repo.interval_seconds.is_zero_or_less() {
        return Err(ConfigError::InvalidInterval { name: repo.name.clone() });
    }
    match check_branches(repo) {
        Ok(_) => {},
        Err(error) => return Err(error),
    }
    match check_quiet_hours(repo) {
        Ok(_) => {},
        Err(error) => return Err(error),
    }
    if taken_path {
        return Err(ConfigError::DuplicatePath { path: repo.path.clone() });
    }
    Ok(())
}

/// Checks a configuration: the version first, and the repositories one after
/// the other, up to the first error.
pub fn validate_config_schema(config: &AppConfig) -> (result: Result<(), ConfigError>)
    ensures
        checked(result) == schema_error(config@),
{
    if config.config_version > CURRENT_CONFIG_VERSION {
        return Err(ConfigError::NewerVersion { version: config.config_version });
    }
    if config.repositories.len() == 0 {
        return Err(ConfigError::NoRepositories);
    }
    let mut i: usize = 0;
    while i < config.repositories.len()
        invariant
            i <= config.repositories.len(),
            config.config_version <= CURRENT_CONFIG_VERSION,
            config.repositories.len() > 0,
            repositories_error(config@.repositories, i as nat) is None,
        decreases config.repositories.len() - i,
    {
        proof {
            lemma_repositories_error_stays(
                config@.repositories,
                (i + 1) as nat,
                config.repositories.len() as nat,
            );
        }
        match check_repository(&config.repositories, i) {
            Ok(_) => {},
            Err(error) => return Err(error),
        }
        i = i + 1;
    }
    Ok(())
}

/// Whether a repository is valid by itself.
pub open spec fn valid_repository(repo: RepositoryView) -> bool {
    &&& trimmed(repo.name).len() > 0
    &&& !repo.interval_seconds.zero_or_less()
    &&& forall|i: int|
        0 <= i < repo.allowed_branches.len() ==> trimmed(#[trigger] repo.allowed_branches[i]).len()
            > 0
    &&& repo.allowed_branches.no_duplicates()
    &&& repo.quiet_hours matches Some(hours) ==> {
        &&& clock_time(hours.start) is Some
        &&& clock_time(hours.end) is Some
        &&& clock_time(hours.start) != clock_time(hours.end)
    }
}

/// Whether a configuration is valid: it is not too new, it has repositories,
/// each is valid by itself, and no two have a name or a path in common.
pub open spec fn valid_config(config: AppView) -> bool {
    &&& config.config_version <= CURRENT_CONFIG_VERSION
    &&& config.repositories.len() > 0
    &&& forall|i: int|
        0 <= i < config.repositories.len() ==> valid_repository(#[trigger] config.repositories[i])
    &&& forall|i: int, j: int|
        0 <= i < j < config.repositories.len() ==> (#[trigger] config.repositories[i]).name != (
        #[trigger] config.repositories[j]).name
    &&& forall|i: int, j: int|
        0 <= i < j < config.repositories.len() ==> (#[trigger] config.repositories[i]).path != (
        #[trigger] config.repositories[j]).path
}

proof fn lemma_branch_error_none(repo: RepositoryView, n: nat)
    requires
        n <= repo.allowed_branches.len(),
    ensures
        branch_error(repo, n) is None <==> {
            &&& forall|i: int|
                0 <= i < n ==> trimmed(#[trigger] repo.allowed_branches[i]).len() > 0
            &&& forall|i: int, j: int|
                0 <= i < j < n ==> #[trigger] repo.allowed_branches[i]
                    != #[trigger] repo.allowed_branches[j]
        },
    decreases n,
{
    if n > 0 {
        lemma_branch_error_none(repo, (n - 1) as nat);
    }
}

proof fn lemma_repositories_error_none(repos: Seq<RepositoryView>, n: nat)
    requires
        n <= repos.len(),
    ensures
        repositories_error(repos, n) is None <==> forall|i: int|
            #![trigger repos[i]]
            0 <= i < n ==> repository_error(repos, i) is None,
    decreases n,
{
    if n > 0 {
        lemma_repositories_error_none(repos, (n - 1) as nat);
        let last = repos[n - 1];
    }
}

/// The check accepts exactly the valid configurations.
pub proof fn valid_exactly_without_error(config: AppView)
    ensures
        schema_error(config) is None <==> valid_config(config),
{
    let repos = config.repositories;
    lemma_repositories_error_none(repos, repos.len());
    assert forall|i: int| 0 <= i < repos.len() implies {
        repository_error(repos, i) is None <==> {
            &&& valid_repository(#[trigger] repos[i])
            &&& !name_taken(repos, i)
            &&& !path_taken(repos, i)
        }
    } by {
        lemma_branch_error_none(repos[i], repos[i].allowed_branches.len());
    }
    if schema_error(config) is None {
        assert forall|i: int, j: int| 0 <= i < j < repos.len() implies {
            &&& (#[trigger] repos[i]).name != (#[trigger] repos[j]).name
            &&& repos[i].path != repos[j].path
        } by {
            assert(!name_taken(repos, j));
            assert(!path_taken(repos, j));
        }
    }
}

/// In a valid configuration the quiet hours of every repository can be told
/// at every time.
pub proof fn valid_quiet_hours_are_readable(config: AppView, i: int, now: nat)
    requires
        valid_config(config),
        0 <= i < config.repositories.len(),
    ensures
        quiet_window(config.repositories[i].quiet_hours, now) is Ok,
{
    assert(valid_repository(config.repositories[i]));
}

/// A configuration with a flaw is refused: one that is too new or has no
/// repositories, or in which a repository has a blank name, an interval that is
/// not positive, a blank branch or a branch twice, or quiet hours of which an end
/// is no time or that end when they start.
pub proof fn flawed_repositories_are_refused(config: AppView, i: int, a: int, b: int)
    requires
        config.config_version <= 1 && config.repositories.len() > 0 ==> {
            let repo = config.repositories[i];
            &&& 0 <= i < config.repositories.len()
            &&& {
                ||| all_white(repo.name)
                ||| repo.interval_seconds.zero_or_less()
                ||| 0 <= a < repo.allowed_branches.len() && all_white(repo.allowed_branches[a])
                ||| 0 <= a < b < repo.allowed_branches.len() && repo.allowed_branches[a]
                    == repo.allowed_branches[b]
                ||| repo.quiet_hours matches Some(hours) && (clock_time(hours.start) is None
                    || clock_time(hours.end) is None || clock_time(hours.start) == clock_time(
                    hours.end,
                ))
            }
        },
    ensures
        schema_error(config) is Some,
{
    valid_exactly_without_error(config);
    if schema_error(config) is None {
        let repo = config.repositories[i];
        assert(valid_repository(repo));
        blank_texts_are_white(repo.name);
        if 0 <= a < repo.allowed_branches.len() {
            blank_texts_are_white(repo.allowed_branches[a]);
        }
    }
}

/// A configuration in which two repositories have a name or a path in common is
/// refused.
pub proof fn twins_are_refused(config: AppView, i: int, j: int)
    requires
        0 <= i < j < config.repositories.len(),
        config.repositories[i].name == config.repositories[j].name || config.repositories[i].path
            == config.repositories[j].path,
    ensures
        schema_error(config) is Some,
{
    valid_exactly_without_error(config);
}

/// A configuration without a flaw is accepted.
pub proof fn flawless_configurations_are_accepted(config: AppView)
    requires
        config.config_version <= 1,
        config.repositories.len() > 0,
        forall|i: int|
            0 <= i < config.repositories.len() ==> {
                let repo = #[trigger] config.repositories[i];
                &&& !all_white(repo.name)
                &&& !repo.interval_seconds.zero_or_less()
                &&& forall|a: int|
                    0 <= a < repo.allowed_branches.len() ==> !all_white(
                        #[trigger] repo.allowed_branches[a],
                    )
                &&& forall|a: int, b: int|
                    0 <= a < b < repo.allowed_branches.len() ==> #[trigger] repo.allowed_branches[a]
                        != #[trigger] repo.allowed_branches[b]
                &&& repo.quiet_hours matches Some(hours) ==> {
                    &&& clock_time(hours.start) is Some
                    &&& clock_time(hours.end) is Some
                    &&& clock_time(hours.start) != clock_time(hours.end)
                }
            },
        forall|i: int, j: int|
            0 <= i < j < config.repositories.len() ==> (#[trigger] config.repositories[i]).name != (
            #[trigger] config.repositories[j]).name && config.repositories[i].path
                != config.repositories[j].path,
    ensures
        schema_error(config) is None,
{
    valid_exactly_without_error(config);
    assert forall|i: int| 0 <= i < config.repositories.len() implies valid_repository(
        #[trigger] config.repositories[i],
    ) by {
        let repo = config.repositories[i];
        blank_texts_are_white(repo.name);
        assert forall|a: int| 0 <= a < repo.allowed_branches.len() implies trimmed(
            #[trigger] repo.allowed_branches[a],
        ).len() > 0 by {
            blank_texts_are_white(repo.allowed_branches[a]);
        }
        assert forall|a: int, b: int|
            0 <= a < repo.allowed_branches.len() && 0 <= b < repo.allowed_branches.len() && a
                != b implies repo.allowed_branches[a] != repo.allowed_branches[b] by {
            if a < b {
                assert(repo.allowed_branches[a] != repo.allowed_branches[b]);
            } else {
                assert(repo.allowed_branches[b] != repo.allowed_branches[a]);
            }
        }
    }
}

/// Whether an error is about a flaw that the repository at `i` has.
pub open spec fn is_flaw(repos: Seq<RepositoryView>, i: int, error: ConfigErrorView) -> bool {
    let repo = repos[i];
    let branches = repo.allowed_branches;
    match error {
        ConfigErrorView::EmptyName => all_white(repo.name),
        ConfigErrorView::DuplicateName { name } => name == repo.name && exists|j: int|
            0 <= j < i && (#[trigger] repos[j]).name == name,
        ConfigErrorView::InvalidInterval { name } => name == repo.name
            && repo.interval_seconds.zero_or_less(),
        ConfigErrorView::EmptyBranch { name } => name == repo.name && exists|a: int|
            0 <= a < branches.len() && all_white(#[trigger] branches[a]),
        ConfigErrorView::DuplicateBranch { name, branch } => name == repo.name && exists|
            a: int,
            b: int,
        |
            0 <= a < b < branches.len() && #[trigger] branches[a] == branch
                && #[trigger] branches[b] == branch,
        ConfigErrorView::InvalidQuietStart { name, value } => name == repo.name && (
        repo.quiet_hours matches Some(hours) && hours.start == value && clock_time(value) is None),
        ConfigErrorView::InvalidQuietEnd { name, value } => name == repo.name && (
        repo.quiet_hours matches Some(hours) && hours.end == value && clock_time(value) is None),
        ConfigErrorView::IdenticalQuietHours { name } => name == repo.name && (
        repo.quiet_hours matches Some(hours) && clock_time(hours.start) is Some && clock_time(
            hours.start,
        ) == clock_time(hours.end)),
        ConfigErrorView::DuplicatePath { path } => path == repo.path && exists|j: int|
            0 <= j < i && (#[trigger] repos[j]).path == path,
        _ => false,
    }
}

proof fn lemma_branch_flaw(repos: Seq<RepositoryView>, i: int, n: nat)
    requires
        0 <= i < repos.len(),
        n <= repos[i].allowed_branches.len(),
    ensures
        branch_error(repos[i], n) matches Some(error) ==> is_flaw(repos, i, error),
    decreases n,
{
    if n > 0 {
        let repo = repos[i];
        lemma_branch_flaw(repos, i, (n - 1) as nat);
        if branch_error(repo, (n - 1) as nat) is None {
            let branch = repo.allowed_branches[n - 1];
            blank_texts_are_white(branch);
            if trimmed(branch).len() > 0 && exists|j: int|
                0 <= j < n - 1 && #[trigger] repo.allowed_branches[j] == branch {
                let j = choose|j: int|
                    0 <= j < n - 1 && #[trigger] repo.allowed_branches[j] == branch;
                assert(repo.allowed_branches[j] == branch && repo.allowed_branches[n - 1]
                    == branch);
            }
        }
    }
}

proof fn lemma_first_flaw(repos: Seq<RepositoryView>, n: nat)
    requires
        n <= repos.len(),
    ensures
        repositories_error(repos, n) matches Some(error) ==> exists|i: int|
            0 <= i < n && #[trigger] is_flaw(repos, i, error) && forall|j: int|
                0 <= j < i ==> #[trigger] repository_error(repos, j) is None,
        repositories_error(repos, n) is None ==> forall|j: int|
            0 <= j < n ==> #[trigger] repository_error(repos, j) is None,
    decreases n,
{
    if n > 0 {
        let i = n - 1;
        lemma_first_flaw(repos, i as nat);
        if repositories_error(repos, i as nat) is None {
            lemma_branch_flaw(repos, i, repos[i].allowed_branches.len());
            blank_texts_are_white(repos[i].name);
            if let Some(error) = repository_error(repos, i) {
                assert(is_flaw(repos, i, error));
            }
        }
    }
}

/// What is refused is refused for a flaw that it has: it is too new, has no
/// repositories, or has one with the flaw that the error is about.
pub proof fn refusals_name_a_flaw(config: AppView)
    ensures
        schema_error(config) matches Some(error) ==> match error {
            ConfigErrorView::NewerVersion { version } => version == config.config_version
                && version > 1,
            ConfigErrorView::NoRepositories => config.repositories.len() == 0,
            _ => exists|i: int|
                0 <= i < config.repositories.len() && #[trigger] is_flaw(
                    config.repositories,
                    i,
                    error,
                ),
        },
        config.config_version > 1 ==> schema_error(config) == Some(
            ConfigErrorView::NewerVersion { version: config.config_version },
        ),
        config.config_version <= 1 && config.repositories.len() == 0 ==> schema_error(config)
            == Some(ConfigErrorView::NoRepositories),
{
    lemma_first_flaw(config.repositories, config.repositories.len());
}

/// An error names what it is about.
pub proof fn errors_are_about_something(name: Seq<char>, other: Seq<char>, names: Seq<Seq<char>>)
    ensures
        name.is_suffix_of(ConfigErrorView::DuplicateName { name }.message()),
        holds(ConfigErrorView::InvalidInterval { name }.message(), name),
        holds(ConfigErrorView::EmptyBranch { name }.message(), name),
        holds(ConfigErrorView::DuplicateBranch { name, branch: other }.message(), name),
        other.is_suffix_of(ConfigErrorView::DuplicateBranch { name, branch: other }.message()),
        holds(ConfigErrorView::InvalidQuietStart { name, value: other }.message(), name),
        other.is_suffix_of(ConfigErrorView::InvalidQuietStart { name, value: other }.message()),
        holds(ConfigErrorView::InvalidQuietEnd { name, value: other }.message(), name),
        other.is_suffix_of(ConfigErrorView::InvalidQuietEnd { name, value: other }.message()),
        holds(ConfigErrorView::IdenticalQuietHours { name }.message(), name),
        name.is_suffix_of(ConfigErrorView::DuplicatePath { path: name }.message()),
        name.is_suffix_of(ConfigErrorView::UnknownRepository { name }.message()),
        joined(names, ", "@).is_suffix_of(ConfigErrorView::NoneSelected { names }.message()),
        name.is_suffix_of(ConfigErrorView::NameNotInferred { path: name }.message()),
{
    lemma_ends_with("duplicate repository name: "@, name);
    lemma_ends_with("duplicate repository path: "@, name);
    lemma_ends_with("repository not found in config: "@, name);
    lemma_ends_with("no repositories matched the requested names: "@, joined(names, ", "@));
    lemma_ends_with("failed to infer repository name from path "@, name);
    let front = "repository "@;
    assert(is_around(
        ConfigErrorView::InvalidInterval { name }.message(),
        front,
        name,
        " has invalid interval_seconds"@,
    ));
    assert(is_around(
        ConfigErrorView::EmptyBranch { name }.message(),
        front,
        name,
        " has an empty allowed_branches entry"@,
    ));
    assert(is_around(
        ConfigErrorView::IdenticalQuietHours { name }.message(),
        front,
        name,
        " has quiet_hours with identical start and end"@,
    ));
    let a = " has duplicate allowed_branches entry: "@;
    lemma_ends_with(front + name + a, other);
    assert(front + name + a + other =~= front + name + (a + other));
    assert(is_around(front + name + a + other, front, name, a + other));
    let b = " has invalid quiet_hours.start "@;
    lemma_ends_with(front + name + b, other);
    assert(front + name + b + other =~= front + name + (b + other));
    assert(is_around(front + name + b + other, front, name, b + other));
    let c = " has invalid quiet_hours.end "@;
    lemma_ends_with(front + name + c, other);
    assert(front + name + c + other =~= front + name + (c + other));
    assert(is_around(front + name + c + other, front, name, c + other));
}

proof fn lemma_ends_with(front: Seq<char>, end: Seq<char>)
    ensures
        end.is_suffix_of(front + end),
{
    let s = front + end;
    assert(end =~= s.subrange(s.len() - end.len(), s.len() as int));
}

} // verus!
