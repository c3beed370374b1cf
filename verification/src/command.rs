//! Commands that are run on the side: hooks and desktop notifications.

use crate::escape::{escape_applescript_text, escaped, Escape};
use crate::outcome::{printed, printed_text, CommandOutcome};
use crate::paths::option_str;
use crate::repo::{Snapshot, SnapshotView};
use crate::settings::{NotificationSettings, NotificationSettingsView};
use crate::text::{holds, is_around, same_text, texts};
use vstd::prelude::*;

verus! {

/// A program, its arguments, and the environment variables that are set for
/// it.
#[derive(Debug)]
pub struct CommandSpec {
    pub program: String,
    pub args: Vec<String>,
    pub env: Vec<(String, String)>,
}

/// What a [`CommandSpec`] says.
#[verifier::ext_equal]
pub struct CommandView {
    pub program: Seq<char>,
    pub args: Seq<Seq<char>>,
    pub env: Seq<(Seq<char>, Seq<char>)>,
}

/// What environment variables say.
pub open spec fn env_view(env: Seq<(String, String)>) -> Seq<(Seq<char>, Seq<char>)> {
    env.map_values(|variable: (String, String)| (variable.0@, variable.1@))
}

impl View for CommandSpec {
    type V = CommandView;

    open spec fn view(&self) -> CommandView {
        CommandView {
            program: self.program@,
            args: texts(self.args@),
            env: env_view(self.env@),
        }
    }
}

/// A program with its arguments and no environment variables of its own.
pub open spec fn plain_command(program: Seq<char>, args: Seq<Seq<char>>) -> CommandView {
    CommandView { program, args, env: Seq::empty() }
}

/// A command for the shell, with environment variables.
pub open spec fn shell_command(
    command: Seq<char>,
    env: Seq<(Seq<char>, Seq<char>)>,
) -> CommandView {
    CommandView { program: "sh"@, args: seq!["-lc"@, command], env }
}

/// A program with its arguments.
pub(crate) fn command(program: &str, args: Vec<String>) -> (command: CommandSpec)
    ensures
        command@ == plain_command(program@, texts(args@)),
{
    let env: Vec<(String, String)> = Vec::new();
    assert(env_view(env@) =~= Seq::empty());
    CommandSpec { program: program.to_owned(), args, env }
}

/// A command for the shell, with environment variables.
fn shell(command: &str, env: Vec<(String, String)>) -> (spec: CommandSpec)
    ensures
        spec@ == shell_command(command@, env_view(env@)),
{
    let args = vec!["-lc".to_owned(), command.to_owned()];
    assert(texts(args@) =~= seq!["-lc"@, command@]);
    CommandSpec { program: "sh".to_owned(), args, env }
}

/// What to do about a command that is run on the side.
#[derive(Debug)]
pub enum CommandStep {
    /// Run it, and go on with what comes of it.
    Run(CommandSpec),
    /// Nothing more.
    Done,
    /// Log a warning, and nothing more.
    Warn(String),
    /// Give up with an error.
    Failed(String),
}

/// What a [`CommandStep`] says.
#[verifier::ext_equal]
pub enum CommandStepView {
    Run(CommandView),
    Done,
    Warn(Seq<char>),
    Failed(Seq<char>),
}

impl View for CommandStep {
    type V = CommandStepView;

    open spec fn view(&self) -> CommandStepView {
        match self {
            CommandStep::Run(spec) => CommandStepView::Run(spec@),
            CommandStep::Done => CommandStepView::Done,
            CommandStep::Warn(message) => CommandStepView::Warn(message@),
            CommandStep::Failed(message) => CommandStepView::Failed(message@),
        }
    }
}

/// What an optional outcome is.
pub open spec fn option_outcome(outcome: Option<&CommandOutcome>) -> Option<CommandOutcome> {
    match outcome {
        Some(outcome) => Some(*outcome),
        None => None,
    }
}

/// That something did not succeed, with what it said of that if it said
/// anything.
pub open spec fn unsuccessful(what: Seq<char>, stderr: Seq<char>) -> Seq<char> {
    if stderr.len() == 0 {
        what + " exited unsuccessfully"@
    } else {
        what + " exited unsuccessfully: "@ + stderr
    }
}

/// That something did not succeed, with what it said of that if it said
/// anything.
fn unsuccessful_text(what: &str, stderr: &str) -> (text: String)
    ensures
        text@ == unsuccessful(what@, stderr@),
{
    if stderr.is_empty() {
        what.to_owned().concat(" exited unsuccessfully")
    } else {
        what.to_owned().concat(" exited unsuccessfully: ").concat(stderr)
    }
}

/// The environment variables of a hook that runs around a pull.
pub open spec fn pull_hook_env(
    event: Seq<char>,
    name: Seq<char>,
    path: Seq<char>,
    snapshot: SnapshotView,
) -> Seq<(Seq<char>, Seq<char>)> {
    seq![
        ("REPO_AUTO_PULLER_EVENT"@, event),
        ("REPO_AUTO_PULLER_REPO_NAME"@, name),
        ("REPO_AUTO_PULLER_REPO_PATH"@, path),
        ("REPO_AUTO_PULLER_BRANCH"@, snapshot.branch),
        ("REPO_AUTO_PULLER_UPSTREAM"@, snapshot.upstream),
        ("REPO_AUTO_PULLER_REMOTE"@, snapshot.remote),
        ("REPO_AUTO_PULLER_REMOTE_BRANCH"@, snapshot.remote_branch),
    ]
}

/// What comes of a hook around a pull: it fails if it cannot be run; if it
/// does not succeed, a strict one fails and another gives a warning.
pub open spec fn pull_hook_verdict(
    event: Seq<char>,
    name: Seq<char>,
    strict: bool,
    outcome: CommandOutcome,
) -> CommandStepView {
    match outcome {
        CommandOutcome::NotStarted { .. } => CommandStepView::Failed(
            "failed to execute "@ + event + " hook for "@ + name,
        ),
        CommandOutcome::Exited { success, stderr, .. } => if success {
            CommandStepView::Done
        } else if strict {
            CommandStepView::Failed(unsuccessful(event + " hook"@, printed(stderr@)))
        } else {
            CommandStepView::Warn(unsuccessful(event + " hook"@, printed(stderr@)))
        },
    }
}

/// How a hook around a pull is run, if there is one: the command that does it,
/// and what is made of the outcome.
pub open spec fn pull_hook_step(
    name: Seq<char>,
    path: Seq<char>,
    event: Seq<char>,
    command: Option<Seq<char>>,
    snapshot: SnapshotView,
    strict: bool,
    outcome: Option<CommandOutcome>,
) -> CommandStepView {
    match command {
        None => CommandStepView::Done,
        Some(command) => match outcome {
            None => CommandStepView::Run(
                shell_command(command, pull_hook_env(event, name, path, snapshot)),
            ),
            Some(outcome) => pull_hook_verdict(event, name, strict, outcome),
        },
    }
}

/// Runs a hook around a pull, if there is one: the command to run, or what to
/// make of the outcome.
pub fn run_pull_hook(
    name: &str,
    path: &str,
    event: &str,
    command: Option<&str>,
    snapshot: &Snapshot,
    strict: bool,
    outcome: Option<&CommandOutcome>,
) -> (step: CommandStep)
    ensures
        step@ == pull_hook_step(
            name@,
            path@,
            event@,
            option_str(command),
            snapshot@,
            strict,
            option_outcome(outcome),
        ),
{
    let command: &str = match command {
        Some(command) => command,
        None => return CommandStep::Done,
    };
    match outcome {
        None => {
            let env = vec![
                ("REPO_AUTO_PULLER_EVENT".to_owned(), event.to_owned()),
                ("REPO_AUTO_PULLER_REPO_NAME".to_owned(), name.to_owned()),
                ("REPO_AUTO_PULLER_REPO_PATH".to_owned(), path.to_owned()),
                ("REPO_AUTO_PULLER_BRANCH".to_owned(), snapshot.branch.clone()),
                ("REPO_AUTO_PULLER_UPSTREAM".to_owned(), snapshot.upstream.clone()),
                ("REPO_AUTO_PULLER_REMOTE".to_owned(), snapshot.remote.clone()),
                ("REPO_AUTO_PULLER_REMOTE_BRANCH".to_owned(), snapshot.remote_branch.clone()),
            ];
            assert(env_view(env@) =~= pull_hook_env(event@, name@, path@, snapshot@));
            CommandStep::Run(shell(command, env))
        },
        Some(CommandOutcome::NotStarted { .. }) => CommandStep::Failed(
            "failed to execute ".to_owned().concat(event).concat(" hook for ").concat(name),
        ),
        Some(CommandOutcome::Exited { success, stderr, .. }) => if *success {
            CommandStep::Done
        } else {
            let what = event.to_owned().concat(" hook");
            let message = unsuccessful_text(
                what.as_str(),
                printed_text(stderr.as_slice()).as_str(),
            );
            if strict {
                CommandStep::Failed(message)
            } else {
                CommandStep::Warn(message)
            }
        },
    }
}

/// The environment variables of the hook that runs after a failure.
pub open spec fn failure_hook_env(
    name: Seq<char>,
    path: Seq<char>,
    error: Seq<char>,
) -> Seq<(Seq<char>, Seq<char>)> {
    seq![
        ("REPO_AUTO_PULLER_EVENT"@, "sync_error"@),
        ("REPO_AUTO_PULLER_REPO_NAME"@, name),
        ("REPO_AUTO_PULLER_REPO_PATH"@, path),
        ("REPO_AUTO_PULLER_ERROR"@, error),
    ]
}

/// What comes of the hook after a failure: it fails if it cannot be run, and
/// gives a warning if it does not succeed.
pub open spec fn failure_hook_verdict(name: Seq<char>, outcome: CommandOutcome) -> CommandStepView {
    match outcome {
        CommandOutcome::NotStarted { .. } => CommandStepView::Failed(
            "failed to execute failure hook for "@ + name,
        ),
        CommandOutcome::Exited { success, stderr, .. } => if success {
            CommandStepView::Done
        } else {
            CommandStepView::Warn("failure hook exited unsuccessfully: "@ + printed(stderr@))
        },
    }
}

/// How the hook after a failure is run, if there is one: the command that does
/// it, and what is made of the outcome.
pub open spec fn failure_hook_step(
    name: Seq<char>,
    path: Seq<char>,
    command: Option<Seq<char>>,
    error: Seq<char>,
    outcome: Option<CommandOutcome>,
) -> CommandStepView {
    match command {
        None => CommandStepView::Done,
        Some(command) => match outcome {
            None => CommandStepView::Run(
                shell_command(command, failure_hook_env(name, path, error)),
            ),
            Some(outcome) => failure_hook_verdict(name, outcome),
        },
    }
}

/// Runs the hook after a failure, if there is one: the command to run, or what
/// to make of the outcome.
pub fn run_failure_hook(
    name: &str,
    path: &str,
    command: Option<&str>,
    error: &str,
    outcome: Option<&CommandOutcome>,
) -> (step: CommandStep)
    ensures
        step@ == failure_hook_step(
            name@,
            path@,
            option_str(command),
            error@,
            option_outcome(outcome),
        ),
{
    let command: &str = match command {
        Some(command) => command,
        None => return CommandStep::Done,
    };
    match outcome {
        None => {
            let env = vec![
                ("REPO_AUTO_PULLER_EVENT".to_owned(), "sync_error".to_owned()),
                ("REPO_AUTO_PULLER_REPO_NAME".to_owned(), name.to_owned()),
                ("REPO_AUTO_PULLER_REPO_PATH".to_owned(), path.to_owned()),
                ("REPO_AUTO_PULLER_ERROR".to_owned(), error.to_owned()),
            ];
            assert(env_view(env@) =~= failure_hook_env(name@, path@, error@));
            CommandStep::Run(shell(command, env))
        },
        Some(CommandOutcome::NotStarted { .. }) => CommandStep::Failed(
            "failed to execute failure hook for ".to_owned().concat(name),
        ),
        Some(CommandOutcome::Exited { success, stderr, .. }) => if *success {
            CommandStep::Done
        } else {
            CommandStep::Warn(
                "failure hook exited unsuccessfully: ".to_owned().concat(
                    printed_text(stderr.as_slice()).as_str(),
                ),
            )
        },
    }
}

/// A desktop notification.
#[derive(Debug)]
pub struct Notification {
    pub event: &'static str,
    pub title: &'static str,
    pub message: String,
}

/// What a [`Notification`] says.
#[verifier::ext_equal]
pub struct NotificationView {
    pub event: Seq<char>,
    pub title: Seq<char>,
    pub message: Seq<char>,
}

impl View for Notification {
    type V = NotificationView;

    open spec fn view(&self) -> NotificationView {
        NotificationView { event: self.event@, title: self.title@, message: self.message@ }
    }
}

/// The environment variables of a notification command.
pub open spec fn notification_env(
    name: Seq<char>,
    path: Seq<char>,
    notification: NotificationView,
) -> Seq<(Seq<char>, Seq<char>)> {
    seq![
        ("REPO_AUTO_PULLER_EVENT"@, notification.event),
        ("REPO_AUTO_PULLER_REPO_NAME"@, name),
        ("REPO_AUTO_PULLER_REPO_PATH"@, path),
        ("REPO_AUTO_PULLER_NOTIFICATION_TITLE"@, notification.title),
        ("REPO_AUTO_PULLER_NOTIFICATION_BODY"@, notification.message),
    ]
}

/// The script that shows a notification on macOS.
pub open spec fn notification_script(notification: NotificationView) -> Seq<char> {
    "display notification \""@ + escaped(Escape::Backslash, notification.message)
        + "\" with title \""@ + escaped(Escape::Backslash, notification.title) + "\""@
}

/// The command that shows a notification: the one in the settings, or the one
/// that the system has for it.
pub open spec fn notification_command(
    settings: NotificationSettingsView,
    os: Seq<char>,
    name: Seq<char>,
    path: Seq<char>,
    notification: NotificationView,
) -> Option<CommandView> {
    match settings.command {
        Some(command) => Some(shell_command(command, notification_env(name, path, notification))),
        None => if os == "linux"@ {
            Some(plain_command("notify-send"@, seq![notification.title, notification.message]))
        } else if os == "macos"@ {
            Some(plain_command("osascript"@, seq!["-e"@, notification_script(notification)]))
        } else {
            None
        },
    }
}

/// What the command that shows a notification is called, and what it is called
/// where it cannot be run.
pub open spec fn notifier(
    settings: NotificationSettingsView,
    os: Seq<char>,
    name: Seq<char>,
) -> (Seq<char>, Seq<char>) {
    if settings.command is Some {
        ("notification command"@, "notification command for "@ + name)
    } else if os == "linux"@ {
        ("notify-send"@, "notify-send"@)
    } else {
        ("osascript"@, "osascript"@)
    }
}

/// How a notification is shown: the command that does it, and what is made of
/// the outcome.
pub open spec fn notification_step(
    settings: NotificationSettingsView,
    os: Seq<char>,
    name: Seq<char>,
    path: Seq<char>,
    notification: NotificationView,
    outcome: Option<CommandOutcome>,
) -> CommandStepView {
    match notification_command(settings, os, name, path, notification) {
        None => CommandStepView::Failed(
            "desktop notifications are not supported on this operating system: "@ + os,
        ),
        Some(command) => match outcome {
            None => CommandStepView::Run(command),
            Some(CommandOutcome::NotStarted { .. }) => CommandStepView::Failed(
                "failed to execute "@ + notifier(settings, os, name).1,
            ),
            Some(CommandOutcome::Exited { success, stderr, .. }) => if success {
                CommandStepView::Done
            } else {
                CommandStepView::Failed(
                    unsuccessful(notifier(settings, os, name).0, printed(stderr@)),
                )
            },
        },
    }
}

/// The command that shows a notification.
fn notification_program(
    settings: &NotificationSettings,
    os: &str,
    name: &str,
    path: &str,
    notification: &Notification,
) -> (spec: Option<CommandSpec>)
    ensures
        match spec {
            Some(spec) => notification_command(settings@, os@, name@, path@, notification@) == Some(
                spec@,
            ),
            None => notification_command(settings@, os@, name@, path@, notification@) is None,
        },
{
    if let Some(command) = &settings.command {
        let env = vec![
            ("REPO_AUTO_PULLER_EVENT".to_owned(), notification.event.to_owned()),
            ("REPO_AUTO_PULLER_REPO_NAME".to_owned(), name.to_owned()),
            ("REPO_AUTO_PULLER_REPO_PATH".to_owned(), path.to_owned()),
            ("REPO_AUTO_PULLER_NOTIFICATION_TITLE".to_owned(), notification.title.to_owned()),
            ("REPO_AUTO_PULLER_NOTIFICATION_BODY".to_owned(), notification.message.clone()),
        ];
        assert(env_view(env@) =~= notification_env(name@, path@, notification@));
        return Some(shell(command.as_str(), env));
    }
    if same_text(os, "linux") {
        let args = vec![notification.title.to_owned(), notification.message.clone()];
        assert(texts(args@) =~= seq![notification@.title, notification@.message]);
        Some(crate::command::command("notify-send", args))
    } else if same_text(os, "macos") {
        let script = "display notification \"".to_owned().concat(
            escape_applescript_text(notification.message.as_str()).as_str(),
        ).concat("\" with title \"").concat(
            escape_applescript_text(notification.title).as_str(),
        ).concat("\"");
        let args = vec!["-e".to_owned(), script];
        assert(texts(args@) =~= seq!["-e"@, notification_script(notification@)]);
        Some(crate::command::command("osascript", args))
    } else {
        None
    }
}

/// Shows a notification: the command to run, or what to make of the outcome.
pub fn run_desktop_notification(
    settings: &NotificationSettings,
    os: &str,
    name: &str,
    path: &str,
    notification: &Notification,
    outcome: Option<&CommandOutcome>,
) -> (step: CommandStep)
    ensures
        step@ == notification_step(
            settings@,
            os@,
            name@,
            path@,
            notification@,
            option_outcome(outcome),
        ),
{
    let spec = match notification_program(settings, os, name, path, notification) {
        Some(spec) => spec,
        None => return CommandStep::Failed(
            "desktop notifications are not supported on this operating system: ".to_owned().concat(
                os,
            ),
        ),
    };
    let outcome: &CommandOutcome = match outcome {
        Some(outcome) => outcome,
        None => return CommandStep::Run(spec),
    };
    let custom = settings.command.is_some();
    let what: &str = if custom {
        "notification command"
    } else if same_text(os, "linux") {
        "notify-send"
    } else {
        "osascript"
    };
    match outcome {
        CommandOutcome::NotStarted { .. } => {
            if custom {
                let message = "failed to execute ".to_owned().concat(
                    "notification command for ".to_owned().concat(name).as_str(),
                );
                CommandStep::Failed(message)
            } else {
                CommandStep::Failed("failed to execute ".to_owned().concat(what))
            }
        },
        CommandOutcome::Exited { success, stderr, .. } => if *success {
            CommandStep::Done
        } else {
            CommandStep::Failed(
                unsuccessful_text(what, printed_text(stderr.as_slice()).as_str()),
            )
        },
    }
}

/// Whether an event is notified.
pub open spec fn notifies(settings: NotificationSettingsView, event: Seq<char>) -> bool {
    if event == "pull"@ {
        settings.on_pull
    } else if event == "failure"@ {
        settings.on_failure
    } else {
        false
    }
}

/// How a notification is shown where the settings ask for it: a failure to
/// show it is no more than a warning.
pub open spec fn lenient_notification_step(
    settings: NotificationSettingsView,
    os: Seq<char>,
    name: Seq<char>,
    path: Seq<char>,
    notification: NotificationView,
    outcome: Option<CommandOutcome>,
) -> CommandStepView {
    if !notifies(settings, notification.event) {
        CommandStepView::Done
    } else {
        match notification_step(settings, os, name, path, notification, outcome) {
            CommandStepView::Failed(error) => CommandStepView::Warn(
                "desktop notification failed: "@ + error,
            ),
            step => step,
        }
    }
}

/// Shows a notification where the settings ask for it: the command to run, or
/// what to make of the outcome.
pub fn maybe_send_desktop_notification(
    settings: &NotificationSettings,
    os: &str,
    name: &str,
    path: &str,
    notification: &Notification,
    outcome: Option<&CommandOutcome>,
) -> (step: CommandStep)
    ensures
        step@ == lenient_notification_step(
            settings@,
            os@,
            name@,
            path@,
            notification@,
            option_outcome(outcome),
        ),
{
    let enabled = if same_text(notification.event, "pull") {
        settings.on_pull
    } else if same_text(notification.event, "failure") {
        settings.on_failure
    } else {
        false
    };
    if !enabled {
        return CommandStep::Done;
    }
    match run_desktop_notification(settings, os, name, path, notification, outcome) {
        CommandStep::Failed(error) => CommandStep::Warn(
            "desktop notification failed: ".to_owned().concat(error.as_str()),
        ),
        step => step,
    }
}

/// A notification never stops anything: it is run, done, or warned of.
pub proof fn notifications_never_fail(
    settings: NotificationSettingsView,
    os: Seq<char>,
    name: Seq<char>,
    path: Seq<char>,
    notification: NotificationView,
    outcome: Option<CommandOutcome>,
)
    ensures
        !(lenient_notification_step(settings, os, name, path, notification, outcome) is Failed),
{
}

/// A hook around a pull is run by the shell, and is told the event, the
/// repository and its branches; where there is none, nothing is run.
pub proof fn pull_hooks_are_told_of_the_pull(
    name: Seq<char>,
    path: Seq<char>,
    event: Seq<char>,
    command: Option<Seq<char>>,
    snapshot: SnapshotView,
    strict: bool,
)
    ensures
        command is None ==> pull_hook_step(name, path, event, command, snapshot, strict, None)
            is Done,
        command matches Some(command) ==> (pull_hook_step(
            name,
            path,
            event,
            Some(command),
            snapshot,
            strict,
            None,
        ) matches CommandStepView::Run(run) && {
            &&& run.program == "sh"@
            &&& run.args.len() == 2 && run.args[0] == "-lc"@ && run.args[1] == command
            &&& run.env.len() == 7
            &&& run.env.contains(("REPO_AUTO_PULLER_EVENT"@, event))
            &&& run.env.contains(("REPO_AUTO_PULLER_REPO_NAME"@, name))
            &&& run.env.contains(("REPO_AUTO_PULLER_REPO_PATH"@, path))
            &&& run.env.contains(("REPO_AUTO_PULLER_BRANCH"@, snapshot.branch))
            &&& run.env.contains(("REPO_AUTO_PULLER_UPSTREAM"@, snapshot.upstream))
            &&& run.env.contains(("REPO_AUTO_PULLER_REMOTE"@, snapshot.remote))
            &&& run.env.contains(("REPO_AUTO_PULLER_REMOTE_BRANCH"@, snapshot.remote_branch))
        }),
{
    let env = pull_hook_env(event, name, path, snapshot);
    assert(env[0] == ("REPO_AUTO_PULLER_EVENT"@, event));
    assert(env[1] == ("REPO_AUTO_PULLER_REPO_NAME"@, name));
    assert(env[2] == ("REPO_AUTO_PULLER_REPO_PATH"@, path));
    assert(env[3] == ("REPO_AUTO_PULLER_BRANCH"@, snapshot.branch));
    assert(env[4] == ("REPO_AUTO_PULLER_UPSTREAM"@, snapshot.upstream));
    assert(env[5] == ("REPO_AUTO_PULLER_REMOTE"@, snapshot.remote));
    assert(env[6] == ("REPO_AUTO_PULLER_REMOTE_BRANCH"@, snapshot.remote_branch));
}

/// A hook around a pull has passed exactly if it was run and succeeded; one that
/// could not be run is an error, and one that did not succeed is an error where
/// it has to, and a warning where it does not; what it said is told.
pub proof fn pull_hooks_pass_if_they_succeed(
    name: Seq<char>,
    path: Seq<char>,
    event: Seq<char>,
    command: Seq<char>,
    snapshot: SnapshotView,
    strict: bool,
    outcome: CommandOutcome,
)
    ensures
        ({
            let step = pull_hook_step(
                name,
                path,
                event,
                Some(command),
                snapshot,
                strict,
                Some(outcome),
            );
            &&& step is Done <==> (outcome matches CommandOutcome::Exited { success, .. }
                && success)
            &&& outcome is NotStarted ==> step is Failed
            &&& outcome matches CommandOutcome::Exited { success, stderr, .. } ==> (!success ==> {
                let said = printed(stderr@);
                if strict {
                    step matches CommandStepView::Failed(text) && event.is_prefix_of(text)
                        && said.is_suffix_of(text)
                } else {
                    step matches CommandStepView::Warn(text) && event.is_prefix_of(text)
                        && said.is_suffix_of(text)
                }
            })
        }),
{
    if let CommandOutcome::Exited { success, stderr, .. } = outcome {
        let said = printed(stderr@);
        let text = unsuccessful(event + " hook"@, said);
        assert(event =~= text.subrange(0, event.len() as int));
        assert(said =~= text.subrange(text.len() - said.len(), text.len() as int));
    }
}

/// The hook after a failure is run by the shell, and is told the repository and
/// the error; where there is none, nothing is run.
pub proof fn failure_hooks_are_told_of_the_error(
    name: Seq<char>,
    path: Seq<char>,
    command: Seq<char>,
    error: Seq<char>,
)
    ensures
        failure_hook_step(name, path, None, error, None) is Done,
        failure_hook_step(name, path, Some(command), error, None) matches CommandStepView::Run(run)
            && {
            &&& run.program == "sh"@
            &&& run.args.len() == 2 && run.args[0] == "-lc"@ && run.args[1] == command
            &&& run.env.len() == 4
            &&& run.env.contains(("REPO_AUTO_PULLER_EVENT"@, "sync_error"@))
            &&& run.env.contains(("REPO_AUTO_PULLER_REPO_NAME"@, name))
            &&& run.env.contains(("REPO_AUTO_PULLER_REPO_PATH"@, path))
            &&& run.env.contains(("REPO_AUTO_PULLER_ERROR"@, error))
        },
{
    let env = failure_hook_env(name, path, error);
    assert(env[0] == ("REPO_AUTO_PULLER_EVENT"@, "sync_error"@));
    assert(env[1] == ("REPO_AUTO_PULLER_REPO_NAME"@, name));
    assert(env[2] == ("REPO_AUTO_PULLER_REPO_PATH"@, path));
    assert(env[3] == ("REPO_AUTO_PULLER_ERROR"@, error));
}

/// A notification is shown exactly where the settings ask for one of its event:
/// of a pull by one setting, of a failure by the other, and of nothing else.
pub proof fn notifications_are_shown_where_asked(
    settings: NotificationSettingsView,
    os: Seq<char>,
    name: Seq<char>,
    path: Seq<char>,
    notification: NotificationView,
)
    ensures
        ({
            let step = lenient_notification_step(settings, os, name, path, notification, None);
            let asked = (notification.event == "pull"@ && settings.on_pull) || (notification.event
                == "failure"@ && settings.on_failure);
            let able = settings.command is Some || os == "linux"@ || os == "macos"@;
            &&& step is Run <==> asked && able
            &&& step is Done <==> !asked
            &&& step is Warn <==> asked && !able
        }),
{
    reveal_strlit("pull");
    reveal_strlit("failure");
    assert("pull"@.len() == 4 && "failure"@.len() == 7);
}

/// A notification is shown by the command of the settings if there is one, which
/// is told all of it; else by the one of the system, with its title and its
/// message.
pub proof fn notifications_are_told_in_full(
    settings: NotificationSettingsView,
    os: Seq<char>,
    name: Seq<char>,
    path: Seq<char>,
    notification: NotificationView,
)
    ensures
        settings.command matches Some(command) ==> (notification_step(
            settings,
            os,
            name,
            path,
            notification,
            None,
        ) matches CommandStepView::Run(run) && {
            &&& run.program == "sh"@
            &&& run.args.len() == 2 && run.args[0] == "-lc"@ && run.args[1] == command
            &&& run.env.len() == 5
            &&& run.env.contains(("REPO_AUTO_PULLER_EVENT"@, notification.event))
            &&& run.env.contains(("REPO_AUTO_PULLER_REPO_NAME"@, name))
            &&& run.env.contains(("REPO_AUTO_PULLER_REPO_PATH"@, path))
            &&& run.env.contains(("REPO_AUTO_PULLER_NOTIFICATION_TITLE"@, notification.title))
            &&& run.env.contains(("REPO_AUTO_PULLER_NOTIFICATION_BODY"@, notification.message))
        }),
        settings.command is None && os == "linux"@ ==> (notification_step(
            settings,
            os,
            name,
            path,
            notification,
            None,
        ) matches CommandStepView::Run(run) && {
            &&& run.program == "notify-send"@
            &&& run.args == seq![notification.title, notification.message]
            &&& run.env.len() == 0
        }),
        settings.command is None && os == "macos"@ ==> (notification_step(
            settings,
            os,
            name,
            path,
            notification,
            None,
        ) matches CommandStepView::Run(run) && {
            &&& run.program == "osascript"@
            &&& run.args.len() == 2 && run.args[0] == "-e"@
            &&& ("display notification \""@ + escaped(
                Escape::Backslash,
                notification.message,
            )).is_prefix_of(run.args[1])
            &&& holds(run.args[1], escaped(Escape::Backslash, notification.title))
        }),
{
    reveal_strlit("linux");
    reveal_strlit("macos");
    assert("linux"@[0] == 'l' && "macos"@[0] == 'm');
    let env = notification_env(name, path, notification);
    assert(env[0] == ("REPO_AUTO_PULLER_EVENT"@, notification.event));
    assert(env[1] == ("REPO_AUTO_PULLER_REPO_NAME"@, name));
    assert(env[2] == ("REPO_AUTO_PULLER_REPO_PATH"@, path));
    assert(env[3] == ("REPO_AUTO_PULLER_NOTIFICATION_TITLE"@, notification.title));
    assert(env[4] == ("REPO_AUTO_PULLER_NOTIFICATION_BODY"@, notification.message));
    let script = notification_script(notification);
    let front = "display notification \""@ + escaped(Escape::Backslash, notification.message);
    assert(front =~= script.subrange(0, front.len() as int));
    assert(is_around(
        script,
        front + "\" with title \""@,
        escaped(Escape::Backslash, notification.title),
        "\""@,
    ));
}

/// A notification was shown exactly if its command was run and succeeded; else a
/// warning says why not.
pub proof fn notifications_are_shown_if_they_succeed(
    settings: NotificationSettingsView,
    os: Seq<char>,
    name: Seq<char>,
    path: Seq<char>,
    notification: NotificationView,
    outcome: CommandOutcome,
)
    requires
        settings.command is Some || os == "linux"@ || os == "macos"@,
    ensures
        ({
            let step = notification_step(settings, os, name, path, notification, Some(outcome));
            let lenient = lenient_notification_step(
                settings,
                os,
                name,
                path,
                notification,
                Some(outcome),
            );
            let shown = outcome matches CommandOutcome::Exited { success, .. } && success;
            &&& shown ==> step is Done && lenient is Done
            &&& !shown ==> step is Failed && (lenient is Done || lenient is Warn)
            &&& lenient matches CommandStepView::Warn(text) ==> {
                step matches CommandStepView::Failed(error) && error.is_suffix_of(text)
            }
            &&& outcome matches CommandOutcome::Exited { success, stderr, .. } ==> (!success ==> {
                step matches CommandStepView::Failed(error) && printed(stderr@).is_suffix_of(error)
            })
        }),
{
    let step = notification_step(settings, os, name, path, notification, Some(outcome));
    if let CommandStepView::Failed(error) = step {
        let text = "desktop notification failed: "@ + error;
        assert(error =~= text.subrange(text.len() - error.len(), text.len() as int));
        if let CommandOutcome::Exited { success, stderr, .. } = outcome {
            let said = printed(stderr@);
            assert(said =~= error.subrange(error.len() - said.len(), error.len() as int));
        }
    }
}

/// The hook after a failure that was run and did not succeed is warned of, with
/// what it said, and only one that could not be run is an error.
pub proof fn failure_hooks_only_warn(
    name: Seq<char>,
    path: Seq<char>,
    command: Seq<char>,
    error: Seq<char>,
    outcome: CommandOutcome,
)
    ensures
        ({
            let step = failure_hook_step(name, path, Some(command), error, Some(outcome));
            &&& step is Done <==> (outcome matches CommandOutcome::Exited { success, .. }
                && success)
            &&& step is Failed <==> outcome is NotStarted
            &&& outcome matches CommandOutcome::Exited { success, stderr, .. } ==> (!success ==> {
                step matches CommandStepView::Warn(text) && printed(stderr@).is_suffix_of(text)
            })
        }),
{
    if let CommandOutcome::Exited { success, stderr, .. } = outcome {
        let said = printed(stderr@);
        let text = "failure hook exited unsuccessfully: "@ + said;
        assert(said =~= text.subrange(text.len() - said.len(), text.len() as int));
    }
}

/// A notification that is not shown is an error that names the command that was
/// to show it: the one of the settings, with the repository where it could not be
/// run, or the one of the system.
pub proof fn missed_notifications_name_the_command(
    settings: NotificationSettingsView,
    os: Seq<char>,
    name: Seq<char>,
    path: Seq<char>,
    notification: NotificationView,
    outcome: CommandOutcome,
)
    requires
        outcome matches CommandOutcome::Exited { success, .. } ==> !success,
        settings.command is Some || os == "linux"@ || os == "macos"@,
    ensures
        ({
            let command = if settings.command is Some {
                "notification command"@
            } else if os == "linux"@ {
                "notify-send"@
            } else {
                "osascript"@
            };
            notification_step(settings, os, name, path, notification, Some(outcome))
                matches CommandStepView::Failed(error) && {
                &&& outcome is Exited ==> command.is_prefix_of(error)
                &&& outcome is NotStarted && settings.command is Some ==> error
                    == "failed to execute "@ + ("notification command for "@ + name)
                &&& outcome is NotStarted && settings.command is None ==> error
                    == "failed to execute "@ + command
            }
        }),
{
    let step = notification_step(settings, os, name, path, notification, Some(outcome));
    if let CommandStepView::Failed(error) = step {
        if outcome is Exited {
            let command = notifier(settings, os, name).0;
            assert(command =~= error.subrange(0, command.len() as int));
        }
    }
}

} // verus!
