//! The configuration: what it holds.

use crate::repo::copy_list;
use crate::text::texts;
use vstd::prelude::*;

verus! {

/// The version of the configuration that is written.
pub const CURRENT_CONFIG_VERSION: u32 = 1;

/// What an optional text says.
pub open spec fn option_text(text: Option<String>) -> Option<Seq<char>> {
    match text {
        Some(text) => Some(text@),
        None => None,
    }
}

/// A copy of an optional text.
pub(crate) fn copy_option(text: &Option<String>) -> (copy: Option<String>)
    ensures
        option_text(copy) == option_text(*text),
{
    match text {
        Some(text) => Some(text.clone()),
        None => None,
    }
}

/// A number of seconds, as the bits of a double-precision number.
#[derive(Clone, Copy, Debug, Eq, PartialEq, Structural)]
pub struct Seconds {
    pub bits: u64,
}

impl Seconds {
    /// Whether the number is zero or less. The first bit is the sign, and a
    /// rest above that of infinity stands for no number, which is neither.
    pub open spec fn zero_or_less(self) -> bool {
        let sign = self.bits >= 0x8000_0000_0000_0000u64;
        let rest = self.bits % 0x8000_0000_0000_0000u64;
        rest <= 0x7ff0_0000_0000_0000u64 && (sign || rest == 0)
    }

    /// Whether the number is zero or less.
    pub fn is_zero_or_less(&self) -> (is: bool)
        ensures
            is == self.zero_or_less(),
    {
        let sign = self.bits >= 0x8000_0000_0000_0000u64;
        let rest: u64 = self.bits % 0x8000_0000_0000_0000u64;
        rest <= 0x7ff0_0000_0000_0000u64 && (sign || rest == 0)
    }
}

/// When and how the desktop is notified; what is left out is taken from
/// elsewhere.
#[derive(Debug)]
pub struct DesktopNotificationsConfig {
    pub on_pull: Option<bool>,
    pub on_failure: Option<bool>,
    pub command: Option<String>,
}

/// What a [`DesktopNotificationsConfig`] says.
#[verifier::ext_equal]
pub struct NotificationsView {
    pub on_pull: Option<bool>,
    pub on_failure: Option<bool>,
    pub command: Option<Seq<char>>,
}

impl View for DesktopNotificationsConfig {
    type V = NotificationsView;

    open spec fn view(&self) -> NotificationsView {
        NotificationsView {
            on_pull: self.on_pull,
            on_failure: self.on_failure,
            command: option_text(self.command),
        }
    }
}

impl Clone for DesktopNotificationsConfig {
    fn clone(&self) -> (copy: Self)
        ensures
            copy@ == self@,
    {
        DesktopNotificationsConfig {
            on_pull: self.on_pull,
            on_failure: self.on_failure,
            command: copy_option(&self.command),
        }
    }
}

/// Hours of the day in which nothing is pulled, each as hours and minutes.
#[derive(Debug)]
pub struct QuietHoursConfig {
    pub start: String,
    pub end: String,
}

/// What a [`QuietHoursConfig`] says.
#[verifier::ext_equal]
pub struct QuietHoursView {
    pub start: Seq<char>,
    pub end: Seq<char>,
}

impl View for QuietHoursConfig {
    type V = QuietHoursView;

    open spec fn view(&self) -> QuietHoursView {
        QuietHoursView { start: self.start@, end: self.end@ }
    }
}

impl Clone for QuietHoursConfig {
    fn clone(&self) -> (copy: Self)
        ensures
            copy@ == self@,
    {
        QuietHoursConfig { start: self.start.clone(), end: self.end.clone() }
    }
}

/// One repository that is watched.
#[derive(Debug)]
pub struct RepositoryConfig {
    pub name: String,
    pub path: String,
    pub interval_seconds: Seconds,
    pub enabled: bool,
    pub paused: bool,
    pub dry_run: bool,
    pub allowed_branches: Vec<String>,
    pub quiet_hours: Option<QuietHoursConfig>,
    pub desktop_notifications: Option<DesktopNotificationsConfig>,
    pub before_pull_command: Option<String>,
    pub after_pull_command: Option<String>,
    pub on_failure_command: Option<String>,
}

/// What a [`RepositoryConfig`] says.
#[verifier::ext_equal]
pub struct RepositoryView {
    pub name: Seq<char>,
    pub path: Seq<char>,
    pub interval_seconds: Seconds,
    pub enabled: bool,
    pub paused: bool,
    pub dry_run: bool,
    pub allowed_branches: Seq<Seq<char>>,
    pub quiet_hours: Option<QuietHoursView>,
    pub desktop_notifications: Option<NotificationsView>,
    pub before_pull_command: Option<Seq<char>>,
    pub after_pull_command: Option<Seq<char>>,
    pub on_failure_command: Option<Seq<char>>,
}

/// What optional notification settings say.
pub open spec fn option_notifications(
    config: Option<DesktopNotificationsConfig>,
) -> Option<NotificationsView> {
    match config {
        Some(config) => Some(config@),
        None => None,
    }
}

/// What optional quiet hours say.
pub open spec fn option_quiet_hours(config: Option<QuietHoursConfig>) -> Option<QuietHoursView> {
    match config {
        Some(config) => Some(config@),
        None => None,
    }
}

impl View for RepositoryConfig {
    type V = RepositoryView;

    open spec fn view(&self) -> RepositoryView {
        RepositoryView {
            name: self.name@,
            path: self.path@,
            interval_seconds: self.interval_seconds,
            enabled: self.enabled,
            paused: self.paused,
            dry_run: self.dry_run,
            allowed_branches: texts(self.allowed_branches@),
            quiet_hours: option_quiet_hours(self.quiet_hours),
            desktop_notifications: option_notifications(self.desktop_notifications),
            before_pull_command: option_text(self.before_pull_command),
            after_pull_command: option_text(self.after_pull_command),
            on_failure_command: option_text(self.on_failure_command),
        }
    }
}

impl Clone for RepositoryConfig {
    fn clone(&self) -> (copy: Self)
        ensures
            copy@ == self@,
    {
        RepositoryConfig {
            name: self.name.clone(),
            path: self.path.clone(),
            interval_seconds: self.interval_seconds,
            enabled: self.enabled,
            paused: self.paused,
            dry_run: self.dry_run,
            allowed_branches: copy_list(self.allowed_branches.as_slice()),
            quiet_hours: match &self.quiet_hours {
                Some(hours) => Some(hours.clone()),
                None => None,
            },
            desktop_notifications: match &self.desktop_notifications {
                Some(config) => Some(config.clone()),
                None => None,
            },
            before_pull_command: copy_option(&self.before_pull_command),
            after_pull_command: copy_option(&self.after_pull_command),
            on_failure_command: copy_option(&self.on_failure_command),
        }
    }
}

/// What holds of every repository that does not say otherwise.
#[derive(Debug)]
pub struct DefaultsConfig {
    pub log_file: Option<String>,
    pub state_file: Option<String>,
    pub history_file: Option<String>,
    pub verbose: bool,
    pub desktop_notifications: Option<DesktopNotificationsConfig>,
    pub before_pull_command: Option<String>,
    pub after_pull_command: Option<String>,
    pub on_failure_command: Option<String>,
}

/// What a [`DefaultsConfig`] says.
#[verifier::ext_equal]
pub struct DefaultsView {
    pub log_file: Option<Seq<char>>,
    pub state_file: Option<Seq<char>>,
    pub history_file: Option<Seq<char>>,
    pub verbose: bool,
    pub desktop_notifications: Option<NotificationsView>,
    pub before_pull_command: Option<Seq<char>>,
    pub after_pull_command: Option<Seq<char>>,
    pub on_failure_command: Option<Seq<char>>,
}

impl View for DefaultsConfig {
    type V = DefaultsView;

    open spec fn view(&self) -> DefaultsView {
        DefaultsView {
            log_file: option_text(self.log_file),
            state_file: option_text(self.state_file),
            history_file: option_text(self.history_file),
            verbose: self.verbose,
            desktop_notifications: option_notifications(self.desktop_notifications),
            before_pull_command: option_text(self.before_pull_command),
            after_pull_command: option_text(self.after_pull_command),
            on_failure_command: option_text(self.on_failure_command),
        }
    }
}

impl Default for DefaultsConfig {
    fn default() -> (config: Self)
        ensures
            config@ == (DefaultsView {
                log_file: None,
                state_file: None,
                history_file: None,
                verbose: false,
                desktop_notifications: None,
                before_pull_command: None,
                after_pull_command: None,
                on_failure_command: None,
            }),
    {
        DefaultsConfig {
            log_file: None,
            state_file: None,
            history_file: None,
            verbose: false,
            desktop_notifications: None,
            before_pull_command: None,
            after_pull_command: None,
            on_failure_command: None,
        }
    }
}

/// The whole configuration.
#[derive(Debug)]
pub struct AppConfig {
    pub config_version: u32,
    pub defaults: DefaultsConfig,
    pub repositories: Vec<RepositoryConfig>,
}

/// What an [`AppConfig`] says.
#[verifier::ext_equal]
pub struct AppView {
    pub config_version: u32,
    pub defaults: DefaultsView,
    pub repositories: Seq<RepositoryView>,
}

/// What a list of repositories says.
pub open spec fn repository_views(list: Seq<RepositoryConfig>) -> Seq<RepositoryView> {
    list.map_values(|repo: RepositoryConfig| repo@)
}

impl View for AppConfig {
    type V = AppView;

    open spec fn view(&self) -> AppView {
        AppView {
            config_version: self.config_version,
            defaults: self.defaults@,
            repositories: repository_views(self.repositories@),
        }
    }
}

/// Of the numbers with the first bit unset only zero is zero or less; with it
/// set all are that are not beyond infinity; and what is beyond infinity is
/// neither.
pub proof fn signs_are_first_bits(seconds: Seconds)
    ensures
        seconds.bits == 0 ==> seconds.zero_or_less(),
        0 < seconds.bits < 0x8000_0000_0000_0000 ==> !seconds.zero_or_less(),
        0x8000_0000_0000_0000 <= seconds.bits <= 0xfff0_0000_0000_0000 ==> seconds.zero_or_less(),
        0xfff0_0000_0000_0000 < seconds.bits ==> !seconds.zero_or_less(),
{
}

} // verus!
