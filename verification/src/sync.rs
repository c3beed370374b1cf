//! One round of keeping a repository up to date: what is asked, what is done,
//! in what order, and what is remembered of it.

use crate::command::{
    failure_hook_step, failure_hooks_are_told_of_the_error, lenient_notification_step,
    maybe_send_desktop_notification, notifications_are_shown_where_asked,
    notifications_are_told_in_full, notifications_never_fail, option_outcome, pull_hook_step,
    pull_hooks_are_told_of_the_pull, pull_hooks_pass_if_they_succeed, run_failure_hook,
    run_pull_hook, CommandSpec, CommandStep, CommandStepView, CommandView, Notification,
    NotificationView,
};
use crate::config::{option_text, AppConfig, RepositoryView};
use crate::effective::{
    allows_branch, effective_of, effective_report, pulling_is_free, EffectiveReport, EffectiveView,
};
use crate::outcome::CommandOutcome;
use crate::paths::option_str;
use crate::quiet::{clock_time, quiet_hours_hold_to_the_second, quiet_window};
use crate::repo::{
    context_step, contexts_fail_for_a_reason, counts_of, decisions_are_conservative, errand_step,
    head_query, probe_repository, probe_step, probes_are_steady, probes_end,
    probes_fetch_what_is_followed, probes_find_what_was_read_last, probes_only_read, pull_query,
    question_step, replies_from, replies_view, report_of, reports_are_as_loud_as_needed,
    snapshot_step, snapshots_say_what_git_said, GitReply, GitReplyView, RepoErrorView, RepoSyncer,
    Snapshot, SnapshotView, Step, StepView, SyncDecision, SyncReportView,
};
use crate::settings::{SelectedRepo, SelectedView};
use crate::text::{decimal, holds, is_around, same_text, splits_are_at_the_first, texts};
use vstd::prelude::*;
use vstd::slice::slice_subrange;

verus! {

/// A repository that is kept up to date: how it is configured, where it is,
/// and what was last said of it.
#[derive(Debug)]
pub struct ManagedRepo {
    pub selected: SelectedRepo,
    pub repo_path: String,
    pub last_message: Option<String>,
    pub last_error: Option<String>,
}

/// What a [`ManagedRepo`] says.
#[verifier::ext_equal]
pub struct ManagedView {
    pub selected: SelectedView,
    pub repo_path: Seq<char>,
    pub last_message: Option<Seq<char>>,
    pub last_error: Option<Seq<char>>,
}

impl View for ManagedRepo {
    type V = ManagedView;

    open spec fn view(&self) -> ManagedView {
        ManagedView {
            selected: self.selected@,
            repo_path: self.repo_path@,
            last_message: option_text(self.last_message),
            last_error: option_text(self.last_error),
        }
    }
}

/// Something that a round does.
#[derive(Debug)]
pub enum Effect {
    /// Write a line to the log.
    Log { level: &'static str, message: String },
    /// Remember that the message was logged.
    RememberMessage { message: String },
    /// Record a snapshot and the report on it.
    Record { snapshot: Snapshot, effective: EffectiveReport },
    /// Record an error.
    RecordError { error: String },
    /// Remember an error.
    RememberError { error: String },
    /// Forget the last error.
    ForgetError,
}

/// What an [`Effect`] says.
#[verifier::ext_equal]
pub enum EffectView {
    Log { level: Seq<char>, message: Seq<char> },
    RememberMessage { message: Seq<char> },
    Record { snapshot: SnapshotView, effective: EffectiveView },
    RecordError { error: Seq<char> },
    RememberError { error: Seq<char> },
    ForgetError,
}

impl View for Effect {
    type V = EffectView;

    open spec fn view(&self) -> EffectView {
        match self {
            Effect::Log { level, message } => EffectView::Log { level: level@, message: message@ },
            Effect::RememberMessage { message } => EffectView::RememberMessage {
                message: message@,
            },
            Effect::Record { snapshot, effective } => EffectView::Record {
                snapshot: snapshot@,
                effective: effective@,
            },
            Effect::RecordError { error } => EffectView::RecordError { error: error@ },
            Effect::RememberError { error } => EffectView::RememberError { error: error@ },
            Effect::ForgetError => EffectView::ForgetError,
        }
    }
}

/// What a list of effects says.
pub open spec fn effect_views(list: Seq<Effect>) -> Seq<EffectView> {
    list.map_values(|effect: Effect| effect@)
}

/// What a round asks for next.
#[derive(Debug)]
pub enum SyncStep {
    /// What Git answers to these arguments.
    Git(Vec<String>),
    /// The time, in seconds from midnight.
    Clock,
    /// What comes of a command.
    Command(CommandSpec),
    /// Nothing: it is over.
    Done,
    /// Nothing: it has failed.
    Failed(String),
}

/// What a [`SyncStep`] says.
#[verifier::ext_equal]
pub enum SyncStepView {
    Git(Seq<Seq<char>>),
    Clock,
    Command(CommandView),
    Done,
    Failed(Seq<char>),
}

impl View for SyncStep {
    type V = SyncStepView;

    open spec fn view(&self) -> SyncStepView {
        match self {
            SyncStep::Git(args) => SyncStepView::Git(texts(args@)),
            SyncStep::Clock => SyncStepView::Clock,
            SyncStep::Command(command) => SyncStepView::Command(command@),
            SyncStep::Done => SyncStepView::Done,
            SyncStep::Failed(error) => SyncStepView::Failed(error@),
        }
    }
}

/// A round, as far as it has come: all that it has done by now, and what it
/// asks for next.
#[derive(Debug)]
pub struct SyncRound {
    pub effects: Vec<Effect>,
    pub step: SyncStep,
}

/// What a [`SyncRound`] says.
#[verifier::ext_equal]
pub struct SyncRoundView {
    pub effects: Seq<EffectView>,
    pub step: SyncStepView,
}

impl View for SyncRound {
    type V = SyncRoundView;

    open spec fn view(&self) -> SyncRoundView {
        SyncRoundView { effects: effect_views(self.effects@), step: self.step@ }
    }
}

/// A round that has come this far.
pub open spec fn at(effects: Seq<EffectView>, step: SyncStepView) -> SyncRoundView {
    SyncRoundView { effects, step }
}

/// Whether the report of a round is logged: always if so asked, and if it
/// calls for attention or was not the last message.
pub open spec fn is_logged(managed: ManagedView, effective: EffectiveView, verbose: bool) -> bool {
    verbose || effective.level != "IDLE"@ || managed.last_message != Some(effective.message)
}

/// What is done to say how a repository stands.
pub open spec fn said(managed: ManagedView, effective: EffectiveView, verbose: bool) -> Seq<
    EffectView,
> {
    if is_logged(managed, effective, verbose) {
        seq![
            EffectView::Log { level: effective.level, message: effective.message },
            EffectView::RememberMessage { message: effective.message },
        ]
    } else {
        Seq::empty()
    }
}

/// What is done at the end of a round that went well.
pub open spec fn concluded(s: SnapshotView, effective: EffectiveView) -> Seq<EffectView> {
    seq![EffectView::Record { snapshot: s, effective }, EffectView::ForgetError]
}

/// The branch that is pulled, and the one that it is pulled into.
pub open spec fn pulled_into(s: SnapshotView) -> Seq<char> {
    s.remote + "/"@ + s.remote_branch + " into "@ + s.branch
}

/// A line at the level for information.
pub open spec fn info_line(message: Seq<char>) -> EffectView {
    EffectView::Log { level: "INFO"@, message }
}

/// A line at the level for warnings.
pub open spec fn warning(message: Seq<char>) -> EffectView {
    EffectView::Log { level: "WARN"@, message }
}

/// The first outcome, if there is one.
pub open spec fn first_outcome(commands: Seq<CommandOutcome>) -> Option<CommandOutcome> {
    if commands.len() > 0 {
        Some(commands[0])
    } else {
        None
    }
}

/// What is left of the outcomes once a command that had to be run was run.
pub open spec fn rest_of(commands: Seq<CommandOutcome>, step: CommandStepView) -> Seq<
    CommandOutcome,
> {
    if step is Run {
        commands.skip(1)
    } else {
        commands
    }
}

/// What is done about a command that has been run.
pub open spec fn warned(effects: Seq<EffectView>, step: CommandStepView) -> Seq<EffectView> {
    match step {
        CommandStepView::Warn(message) => effects.push(warning(message)),
        _ => effects,
    }
}

/// What is said of a repository that was pulled.
pub open spec fn pulled_notification(name: Seq<char>) -> NotificationView {
    NotificationView {
        event: "pull"@,
        title: "repo-auto-puller"@,
        message: name + " updated successfully"@,
    }
}

/// The hook before a pull.
pub open spec fn before_hook(
    managed: ManagedView,
    s: SnapshotView,
    outcome: Option<CommandOutcome>,
) -> CommandStepView {
    pull_hook_step(
        managed.selected.config.name,
        managed.repo_path,
        "before_pull"@,
        managed.selected.before_pull_command,
        s,
        true,
        outcome,
    )
}

/// The hook after a pull.
pub open spec fn after_hook(
    managed: ManagedView,
    s: SnapshotView,
    outcome: Option<CommandOutcome>,
) -> CommandStepView {
    pull_hook_step(
        managed.selected.config.name,
        managed.repo_path,
        "after_pull"@,
        managed.selected.after_pull_command,
        s,
        false,
        outcome,
    )
}

/// The notification of a pull.
pub open spec fn pull_notice(
    managed: ManagedView,
    os: Seq<char>,
    outcome: Option<CommandOutcome>,
) -> CommandStepView {
    lenient_notification_step(
        managed.selected.notification_settings,
        os,
        managed.selected.config.name,
        managed.repo_path,
        pulled_notification(managed.selected.config.name),
        outcome,
    )
}

/// How a round ends after a pull: the repository is probed without fetching,
/// and what is found is recorded.
pub open spec fn reread_round(
    repo: RepositoryView,
    effects: Seq<EffectView>,
    git: Seq<GitReplyView>,
    clock: Seq<u32>,
) -> SyncRoundView {
    match probe_step(false, git) {
        StepView::Git(args) => at(effects, SyncStepView::Git(args)),
        StepView::Failed(error) => at(effects, SyncStepView::Failed(error.message())),
        StepView::Done((after, report)) => if clock.len() < 2 {
            at(effects, SyncStepView::Clock)
        } else {
            at(
                effects + concluded(after, effective_of(repo, after, report, clock[1] as nat)),
                SyncStepView::Done,
            )
        },
    }
}

/// How a round goes on once the notification of a pull is dealt with: the hook
/// after the pull is run.
pub open spec fn after_pull_round(
    managed: ManagedView,
    effects: Seq<EffectView>,
    s: SnapshotView,
    git: Seq<GitReplyView>,
    clock: Seq<u32>,
    commands: Seq<CommandOutcome>,
) -> SyncRoundView {
    match after_hook(managed, s, first_outcome(commands)) {
        CommandStepView::Run(command) => at(effects, SyncStepView::Command(command)),
        CommandStepView::Failed(error) => at(effects, SyncStepView::Failed(error)),
        step => reread_round(managed.selected.config, warned(effects, step), git, clock),
    }
}

/// How a round goes on once a pull is complete: it is notified.
pub open spec fn pulled_round(
    managed: ManagedView,
    os: Seq<char>,
    effects: Seq<EffectView>,
    s: SnapshotView,
    git: Seq<GitReplyView>,
    clock: Seq<u32>,
    commands: Seq<CommandOutcome>,
) -> SyncRoundView {
    match pull_notice(managed, os, first_outcome(commands)) {
        CommandStepView::Run(command) => at(effects, SyncStepView::Command(command)),
        CommandStepView::Failed(error) => at(effects, SyncStepView::Failed(error)),
        step => after_pull_round(
            managed,
            warned(effects, step),
            s,
            git,
            clock,
            rest_of(commands, pull_notice(managed, os, None)),
        ),
    }
}

/// How a round goes on once the hook before a pull has passed: the pull is
/// announced and made, and the last commit is logged.
pub open spec fn pull_round(
    managed: ManagedView,
    os: Seq<char>,
    effects: Seq<EffectView>,
    s: SnapshotView,
    git: Seq<GitReplyView>,
    clock: Seq<u32>,
    commands: Seq<CommandOutcome>,
) -> SyncRoundView {
    let announced = effects.push(info_line("pulling "@ + pulled_into(s)));
    match errand_step(pull_query(s.remote, s.remote_branch), git) {
        StepView::Git(args) => at(announced, SyncStepView::Git(args)),
        StepView::Failed(error) => at(announced, SyncStepView::Failed(error.message())),
        StepView::Done(_) => match question_step(head_query(), git.skip(1)) {
            StepView::Git(args) => at(announced, SyncStepView::Git(args)),
            StepView::Failed(error) => at(announced, SyncStepView::Failed(error.message())),
            StepView::Done(head) => pulled_round(
                managed,
                os,
                announced.push(info_line("auto-pull complete: "@ + head)),
                s,
                git.skip(2),
                clock,
                commands,
            ),
        },
    }
}

/// How a round goes on where a pull is to be made: the hook before it is run,
/// and must pass.
pub open spec fn before_pull_round(
    managed: ManagedView,
    os: Seq<char>,
    effects: Seq<EffectView>,
    s: SnapshotView,
    git: Seq<GitReplyView>,
    clock: Seq<u32>,
    commands: Seq<CommandOutcome>,
) -> SyncRoundView {
    match before_hook(managed, s, first_outcome(commands)) {
        CommandStepView::Run(command) => at(effects, SyncStepView::Command(command)),
        CommandStepView::Failed(error) => at(effects, SyncStepView::Failed(error)),
        step => pull_round(
            managed,
            os,
            warned(effects, step),
            s,
            git,
            clock,
            rest_of(commands, before_hook(managed, s, None)),
        ),
    }
}

/// How a round goes on once the repository was probed and the time is known:
/// it ends where pulling is blocked or there is nothing to pull, and in a dry
/// run with the announcement of the pull; else the pull is made.
pub open spec fn judged_round(
    managed: ManagedView,
    os: Seq<char>,
    dry_run: bool,
    verbose: bool,
    s: SnapshotView,
    report: SyncReportView,
    git: Seq<GitReplyView>,
    clock: Seq<u32>,
    commands: Seq<CommandOutcome>,
) -> SyncRoundView {
    let effective = effective_of(managed.selected.config, s, report, clock[0] as nat);
    let effects = said(managed, effective, verbose);
    if effective.blocks_auto_pull || report.decision == SyncDecision::UpToDate {
        at(effects + concluded(s, effective), SyncStepView::Done)
    } else if dry_run || managed.selected.config.dry_run {
        at(
            effects.push(info_line("dry-run: would fast-forward pull "@ + pulled_into(s)))
                + concluded(s, effective),
            SyncStepView::Done,
        )
    } else {
        before_pull_round(managed, os, effects, s, git, clock, commands)
    }
}

/// A round, after what Git answered, the clock showed and came of commands so
/// far: the repository is fetched and probed, and pulled if that is safe.
pub open spec fn sync_round(
    managed: ManagedView,
    os: Seq<char>,
    dry_run: bool,
    verbose: bool,
    git: Seq<GitReplyView>,
    clock: Seq<u32>,
    commands: Seq<CommandOutcome>,
) -> SyncRoundView {
    match probe_step(true, git) {
        StepView::Git(args) => at(Seq::empty(), SyncStepView::Git(args)),
        StepView::Failed(error) => at(Seq::empty(), SyncStepView::Failed(error.message())),
        StepView::Done((s, report)) => if clock.len() == 0 {
            at(Seq::empty(), SyncStepView::Clock)
        } else {
            judged_round(
                managed,
                os,
                dry_run,
                verbose,
                s,
                report,
                git.skip(8),
                clock,
                commands,
            )
        },
    }
}

/// Whether an optional text is there and equal to another.
fn is_text(text: &Option<String>, other: &str) -> (is: bool)
    ensures
        is == (option_text(*text) == Some(other@)),
{
    match text {
        Some(text) => same_text(text.as_str(), other),
        None => false,
    }
}

/// An optional text, borrowed.
fn as_option_str(text: &Option<String>) -> (borrowed: Option<&str>)
    ensures
        option_str(borrowed) == option_text(*text),
{
    match text {
        Some(text) => Some(text.as_str()),
        None => None,
    }
}

/// The branch that is pulled, and the one that it is pulled into.
pub(crate) fn pulled_into_text(snapshot: &Snapshot) -> (text: String)
    ensures
        text@ == pulled_into(snapshot@),
{
    snapshot.remote.clone().concat("/").concat(snapshot.remote_branch.as_str()).concat(
        " into ",
    ).concat(snapshot.branch.as_str())
}

/// A round that has come this far.
fn stand(effects: Vec<Effect>, step: SyncStep) -> (round: SyncRound)
    ensures
        round@ == at(effect_views(effects@), step@),
{
    SyncRound { effects, step }
}

/// Puts a line behind other effects.
fn add_line(effects: &mut Vec<Effect>, level: &'static str, message: String)
    ensures
        effect_views(final(effects)@) == effect_views(old(effects)@).push(
            EffectView::Log { level: level@, message: message@ },
        ),
{
    effects.push(Effect::Log { level, message });
    assert(effect_views(effects@) =~= effect_views(old(effects)@).push(
        EffectView::Log { level: level@, message: message@ },
    ));
}

/// Puts what is done at the end of a round behind other effects.
fn conclude(effects: &mut Vec<Effect>, snapshot: Snapshot, effective: EffectiveReport)
    ensures
        effect_views(final(effects)@) == effect_views(old(effects)@) + concluded(
            snapshot@,
            effective@,
        ),
{
    effects.push(Effect::Record { snapshot, effective });
    effects.push(Effect::ForgetError);
    assert(effect_views(effects@) =~= effect_views(old(effects)@) + concluded(
        snapshot@,
        effective@,
    ));
}

/// The first outcome, if there is one.
fn first_of_outcomes(commands: &[CommandOutcome]) -> (outcome: Option<&CommandOutcome>)
    ensures
        option_outcome(outcome) == first_outcome(commands@),
{
    if commands.len() > 0 {
        Some(&commands[0])
    } else {
        None
    }
}

/// What is left of the outcomes once a command that had to be run was run.
fn rest_of_outcomes<'a>(commands: &'a [CommandOutcome], step: &CommandStep) -> (rest:
    &'a [CommandOutcome])
    requires
        step@ is Run ==> commands@.len() > 0,
    ensures
        rest@ == rest_of(commands@, step@),
{
    match step {
        CommandStep::Run(_) => {
            let rest = slice_subrange(commands, 1, commands.len());
            assert(rest@ =~= commands@.skip(1));
            rest
        },
        _ => commands,
    }
}

/// A round after a pull.
fn reread(
    managed: &ManagedRepo,
    syncer: &RepoSyncer,
    effects: Vec<Effect>,
    git: &[GitReply],
    clock: &[u32],
) -> (round: SyncRound)
    ensures
        round@ == reread_round(
            managed@.selected.config,
            effect_views(effects@),
            replies_view(git@),
            clock@,
        ),
{
    match probe_repository(syncer, false, git) {
        Step::Git(args) => stand(effects, SyncStep::Git(args)),
        Step::Failed(error) => stand(effects, SyncStep::Failed(error.message())),
        Step::Done((after, report)) => {
            if clock.len() < 2 {
                return stand(effects, SyncStep::Clock);
            }
            let effective = effective_report(&managed.selected.config, &after, &report, clock[1]);
            let mut effects = effects;
            conclude(&mut effects, after, effective);
            stand(effects, SyncStep::Done)
        },
    }
}

/// A round once the notification of a pull is dealt with.
fn after_pull(
    managed: &ManagedRepo,
    syncer: &RepoSyncer,
    effects: Vec<Effect>,
    snapshot: &Snapshot,
    git: &[GitReply],
    clock: &[u32],
    commands: &[CommandOutcome],
) -> (round: SyncRound)
    ensures
        round@ == after_pull_round(
            managed@,
            effect_views(effects@),
            snapshot@,
            replies_view(git@),
            clock@,
            commands@,
        ),
{
    let step = run_pull_hook(
        managed.selected.config.name.as_str(),
        managed.repo_path.as_str(),
        "after_pull",
        as_option_str(&managed.selected.after_pull_command),
        snapshot,
        false,
        first_of_outcomes(commands),
    );
    let mut effects = effects;
    match step {
        CommandStep::Run(command) => return stand(effects, SyncStep::Command(command)),
        CommandStep::Failed(error) => return stand(effects, SyncStep::Failed(error)),
        CommandStep::Warn(message) => add_line(&mut effects, "WARN", message),
        CommandStep::Done => {},
    }
    reread(managed, syncer, effects, git, clock)
}

/// Shows the notification of a pull.
fn notify_pull(managed: &ManagedRepo, os: &str, outcome: Option<&CommandOutcome>) -> (step:
    CommandStep)
    ensures
        step@ == pull_notice(managed@, os@, option_outcome(outcome)),
{
    let notification = Notification {
        event: "pull",
        title: "repo-auto-puller",
        message: managed.selected.config.name.clone().concat(" updated successfully"),
    };
    maybe_send_desktop_notification(
        &managed.selected.notification_settings,
        os,
        managed.selected.config.name.as_str(),
        managed.repo_path.as_str(),
        &notification,
        outcome,
    )
}

/// A round once a pull is complete.
fn pulled(
    managed: &ManagedRepo,
    syncer: &RepoSyncer,
    os: &str,
    effects: Vec<Effect>,
    snapshot: &Snapshot,
    git: &[GitReply],
    clock: &[u32],
    commands: &[CommandOutcome],
) -> (round: SyncRound)
    ensures
        round@ == pulled_round(
            managed@,
            os@,
            effect_views(effects@),
            snapshot@,
            replies_view(git@),
            clock@,
            commands@,
        ),
{
    let mut effects = effects;
    match notify_pull(managed, os, first_of_outcomes(commands)) {
        CommandStep::Run(command) => return stand(effects, SyncStep::Command(command)),
        CommandStep::Failed(error) => return stand(effects, SyncStep::Failed(error)),
        CommandStep::Warn(message) => add_line(&mut effects, "WARN", message),
        CommandStep::Done => {},
    }
    let unrun = notify_pull(managed, os, None);
    let rest = rest_of_outcomes(commands, &unrun);
    after_pull(managed, syncer, effects, snapshot, git, clock, rest)
}

/// A round once the hook before a pull has passed.
fn pull(
    managed: &ManagedRepo,
    syncer: &RepoSyncer,
    os: &str,
    effects: Vec<Effect>,
    snapshot: &Snapshot,
    git: &[GitReply],
    clock: &[u32],
    commands: &[CommandOutcome],
) -> (round: SyncRound)
    ensures
        round@ == pull_round(
            managed@,
            os@,
            effect_views(effects@),
            snapshot@,
            replies_view(git@),
            clock@,
            commands@,
        ),
{
    let mut effects = effects;
    add_line(
        &mut effects,
        "INFO",
        "pulling ".to_owned().concat(pulled_into_text(snapshot).as_str()),
    );
    match syncer.pull_fast_forward(snapshot, git) {
        Step::Git(args) => return stand(effects, SyncStep::Git(args)),
        Step::Failed(error) => return stand(effects, SyncStep::Failed(error.message())),
        Step::Done(_) => {},
    }
    let head = match syncer.head_summary(replies_from(git, 1)) {
        Step::Git(args) => return stand(effects, SyncStep::Git(args)),
        Step::Failed(error) => return stand(effects, SyncStep::Failed(error.message())),
        Step::Done(head) => head,
    };
    add_line(&mut effects, "INFO", "auto-pull complete: ".to_owned().concat(head.as_str()));
    pulled(managed, syncer, os, effects, snapshot, replies_from(git, 2), clock, commands)
}

/// A round where a pull is to be made.
fn before_pull(
    managed: &ManagedRepo,
    syncer: &RepoSyncer,
    os: &str,
    effects: Vec<Effect>,
    snapshot: &Snapshot,
    git: &[GitReply],
    clock: &[u32],
    commands: &[CommandOutcome],
) -> (round: SyncRound)
    ensures
        round@ == before_pull_round(
            managed@,
            os@,
            effect_views(effects@),
            snapshot@,
            replies_view(git@),
            clock@,
            commands@,
        ),
{
    let name: &str = managed.selected.config.name.as_str();
    let path: &str = managed.repo_path.as_str();
    let command = as_option_str(&managed.selected.before_pull_command);
    let mut effects = effects;
    match run_pull_hook(
        name,
        path,
        "before_pull",
        command,
        snapshot,
        true,
        first_of_outcomes(commands),
    ) {
        CommandStep::Run(command) => return stand(effects, SyncStep::Command(command)),
        CommandStep::Failed(error) => return stand(effects, SyncStep::Failed(error)),
        CommandStep::Warn(message) => add_line(&mut effects, "WARN", message),
        CommandStep::Done => {},
    }
    let unrun = run_pull_hook(name, path, "before_pull", command, snapshot, true, None);
    let rest = rest_of_outcomes(commands, &unrun);
    pull(managed, syncer, os, effects, snapshot, git, clock, rest)
}

/// A round of keeping a repository up to date: all that it has done by now, and
/// what it asks for next, after what Git answered, the clock showed in seconds
/// from midnight, and came of commands so far.
pub fn sync_repo(
    managed: &ManagedRepo,
    syncer: &RepoSyncer,
    os: &str,
    dry_run: bool,
    verbose: bool,
    git: &[GitReply],
    clock: &[u32],
    commands: &[CommandOutcome],
) -> (round: SyncRound)
    ensures
        round@ == sync_round(
            managed@,
            os@,
            dry_run,
            verbose,
            replies_view(git@),
            clock@,
            commands@,
        ),
{
    let mut effects: Vec<Effect> = Vec::new();
    assert(effect_views(effects@) =~= Seq::empty());
    let (snapshot, report) = match probe_repository(syncer, true, git) {
        Step::Git(args) => return stand(effects, SyncStep::Git(args)),
        Step::Failed(error) => return stand(effects, SyncStep::Failed(error.message())),
        Step::Done(found) => found,
    };
    if clock.len() == 0 {
        return stand(effects, SyncStep::Clock);
    }
    let effective = effective_report(&managed.selected.config, &snapshot, &report, clock[0]);
    if verbose || !same_text(effective.level, "IDLE") || !is_text(
        &managed.last_message,
        effective.message.as_str(),
    ) {
        add_line(&mut effects, effective.level, effective.message.clone());
        let ghost line = effect_views(effects@);
        effects.push(Effect::RememberMessage { message: effective.message.clone() });
        assert(effect_views(effects@) =~= line.push(
            EffectView::RememberMessage { message: effective@.message },
        ));
    }
    assert(effect_views(effects@) =~= said(managed@, effective@, verbose));
    if effective.blocks_auto_pull || report.decision == SyncDecision::UpToDate {
        conclude(&mut effects, snapshot, effective);
        return stand(effects, SyncStep::Done);
    }
    if dry_run || managed.selected.config.dry_run {
        add_line(
            &mut effects,
            "INFO",
            "dry-run: would fast-forward pull ".to_owned().concat(
                pulled_into_text(&snapshot).as_str(),
            ),
        );
        conclude(&mut effects, snapshot, effective);
        return stand(effects, SyncStep::Done);
    }
    before_pull(
        managed,
        syncer,
        os,
        effects,
        &snapshot,
        replies_from(git, 8),
        clock,
        commands,
    )
}

/// What is said of a repository that could not be kept up to date.
pub open spec fn failure_notification(name: Seq<char>, error: Seq<char>) -> NotificationView {
    NotificationView {
        event: "failure"@,
        title: "repo-auto-puller"@,
        message: name + ": "@ + error,
    }
}

/// The notification of an error.
pub open spec fn failure_notice(
    managed: ManagedView,
    os: Seq<char>,
    error: Seq<char>,
    outcome: Option<CommandOutcome>,
) -> CommandStepView {
    lenient_notification_step(
        managed.selected.notification_settings,
        os,
        managed.selected.config.name,
        managed.repo_path,
        failure_notification(managed.selected.config.name, error),
        outcome,
    )
}

/// The hook after an error.
pub open spec fn failure_hook(
    managed: ManagedView,
    error: Seq<char>,
    outcome: Option<CommandOutcome>,
) -> CommandStepView {
    failure_hook_step(
        managed.selected.config.name,
        managed.repo_path,
        managed.selected.on_failure_command,
        error,
        outcome,
    )
}

/// What is done about every error.
pub open spec fn noted(error: Seq<char>) -> Seq<EffectView> {
    seq![EffectView::Log { level: "ERROR"@, message: error }, EffectView::RecordError { error }]
}

/// How an error is dealt with once its notification is: the hook after it is
/// run.
pub open spec fn failure_hook_round(
    managed: ManagedView,
    effects: Seq<EffectView>,
    error: Seq<char>,
    commands: Seq<CommandOutcome>,
) -> SyncRoundView {
    match failure_hook(managed, error, first_outcome(commands)) {
        CommandStepView::Run(command) => at(effects, SyncStepView::Command(command)),
        CommandStepView::Failed(cause) => at(effects, SyncStepView::Failed(cause)),
        step => at(
            warned(effects, step).push(EffectView::RememberError { error }),
            SyncStepView::Done,
        ),
    }
}

/// How an error is dealt with, after what came of commands so far: it is logged
/// and recorded, and unless it was the last one it is notified and its hook is
/// run.
pub open spec fn error_round(
    managed: ManagedView,
    os: Seq<char>,
    error: Seq<char>,
    commands: Seq<CommandOutcome>,
) -> SyncRoundView {
    if managed.last_error == Some(error) {
        at(noted(error).push(EffectView::RememberError { error }), SyncStepView::Done)
    } else {
        match failure_notice(managed, os, error, first_outcome(commands)) {
            CommandStepView::Run(command) => at(noted(error), SyncStepView::Command(command)),
            CommandStepView::Failed(cause) => at(noted(error), SyncStepView::Failed(cause)),
            step => failure_hook_round(
                managed,
                warned(noted(error), step),
                error,
                rest_of(commands, failure_notice(managed, os, error, None)),
            ),
        }
    }
}

/// Shows the notification of an error.
fn notify_failure(
    managed: &ManagedRepo,
    os: &str,
    error: &str,
    outcome: Option<&CommandOutcome>,
) -> (step: CommandStep)
    ensures
        step@ == failure_notice(managed@, os@, error@, option_outcome(outcome)),
{
    let notification = Notification {
        event: "failure",
        title: "repo-auto-puller",
        message: managed.selected.config.name.clone().concat(": ").concat(error),
    };
    maybe_send_desktop_notification(
        &managed.selected.notification_settings,
        os,
        managed.selected.config.name.as_str(),
        managed.repo_path.as_str(),
        &notification,
        outcome,
    )
}

/// Deals with an error of a round: all that was done about it by now, and what
/// is asked for next, after what came of commands so far.
pub fn handle_sync_error(
    managed: &ManagedRepo,
    os: &str,
    error: &str,
    commands: &[CommandOutcome],
) -> (round: SyncRound)
    ensures
        round@ == error_round(managed@, os@, error@, commands@),
{
    let mut effects = vec![
        Effect::Log { level: "ERROR", message: error.to_owned() },
        Effect::RecordError { error: error.to_owned() },
    ];
    assert(effect_views(effects@) =~= noted(error@));
    let memory = Effect::RememberError { error: error.to_owned() };
    if is_text(&managed.last_error, error) {
        effects.push(memory);
        assert(effect_views(effects@) =~= noted(error@).push(memory@));
        return stand(effects, SyncStep::Done);
    }
    match notify_failure(managed, os, error, first_of_outcomes(commands)) {
        CommandStep::Run(command) => return stand(effects, SyncStep::Command(command)),
        CommandStep::Failed(cause) => return stand(effects, SyncStep::Failed(cause)),
        CommandStep::Warn(message) => add_line(&mut effects, "WARN", message),
        CommandStep::Done => {},
    }
    let unrun = notify_failure(managed, os, error, None);
    let rest = rest_of_outcomes(commands, &unrun);
    match run_failure_hook(
        managed.selected.config.name.as_str(),
        managed.repo_path.as_str(),
        as_option_str(&managed.selected.on_failure_command),
        error,
        first_of_outcomes(rest),
    ) {
        CommandStep::Run(command) => return stand(effects, SyncStep::Command(command)),
        CommandStep::Failed(cause) => return stand(effects, SyncStep::Failed(cause)),
        CommandStep::Warn(message) => add_line(&mut effects, "WARN", message),
        CommandStep::Done => {},
    }
    let ghost before = effect_views(effects@);
    effects.push(memory);
    assert(effect_views(effects@) =~= before.push(memory@));
    stand(effects, SyncStep::Done)
}

/// Whether every round is logged: if that is asked for, or configured.
pub fn is_verbose(asked: bool, config: &AppConfig) -> (verbose: bool)
    ensures
        verbose == (asked || config@.defaults.verbose),
{
    asked || config.defaults.verbose
}

/// What is remembered of a repository once something was done.
pub open spec fn remembered(managed: ManagedView, effect: EffectView) -> ManagedView {
    match effect {
        EffectView::RememberMessage { message } => ManagedView {
            last_message: Some(message),
            ..managed
        },
        EffectView::RememberError { error } => ManagedView { last_error: Some(error), ..managed },
        EffectView::ForgetError => ManagedView { last_error: None, ..managed },
        _ => managed,
    }
}

impl ManagedRepo {
    /// A repository of which nothing was said yet.
    pub fn new(selected: SelectedRepo, repo_path: String) -> (managed: Self)
        ensures
            managed@ == (ManagedView {
                selected: selected@,
                repo_path: repo_path@,
                last_message: None,
                last_error: None,
            }),
    {
        ManagedRepo { selected, repo_path, last_message: None, last_error: None }
    }

    /// Remembers that something was done.
    pub fn remember(&mut self, effect: &Effect)
        ensures
            final(self)@ == remembered(old(self)@, effect@),
    {
        match effect {
            Effect::RememberMessage { message } => {
                self.last_message = Some(message.clone());
            },
            Effect::RememberError { error } => {
                self.last_error = Some(error.clone());
            },
            Effect::ForgetError => {
                self.last_error = None;
            },
            _ => {},
        }
    }
}

/// What is remembered of a repository once all this was done.
pub open spec fn after_effects(managed: ManagedView, effects: Seq<EffectView>) -> ManagedView
    decreases effects.len(),
{
    if effects.len() == 0 {
        managed
    } else {
        remembered(after_effects(managed, effects.drop_last()), effects.last())
    }
}

/// Whether a repository may be pulled: the followed branch has commits that the
/// local one lacks, the local one has none of its own and no uncommitted
/// changes, the repository is neither paused nor in quiet hours nor on a branch
/// that is not allowed, and nothing asks for a dry run.
pub open spec fn is_safe(managed: ManagedView, s: SnapshotView, now: nat, dry_run: bool) -> bool {
    &&& s.behind > 0
    &&& s.ahead == 0
    &&& !s.dirty
    &&& !managed.selected.config.paused
    &&& !(quiet_window(managed.selected.config.quiet_hours, now) matches Ok(Some(_)))
    &&& allows_branch(managed.selected.config, s.branch)
    &&& !dry_run
    &&& !managed.selected.config.dry_run
}

/// Whether a round makes Git pull next.
pub open spec fn is_pulling(round: SyncRoundView) -> bool {
    round.step matches SyncStepView::Git(args) && args.len() > 0 && args[0] == "pull"@
}

/// What a probe reports on is what it found.
proof fn lemma_probe_reports(fetch_remote: bool, git: Seq<GitReplyView>)
    ensures
        probe_step(fetch_remote, git) matches StepView::Done((s, report)) ==> report == report_of(
            s,
        ),
{
}

/// A round makes Git pull only where that is safe, and only once the hook
/// before the pull has passed.
pub proof fn pulls_only_when_safe(
    managed: ManagedView,
    os: Seq<char>,
    dry_run: bool,
    verbose: bool,
    git: Seq<GitReplyView>,
    clock: Seq<u32>,
    commands: Seq<CommandOutcome>,
)
    requires
        is_pulling(sync_round(managed, os, dry_run, verbose, git, clock, commands)),
    ensures
        probe_step(true, git) matches StepView::Done((s, _)) && {
            &&& clock.len() > 0
            &&& is_safe(managed, s, clock[0] as nat, dry_run)
            &&& before_hook(managed, s, first_outcome(commands)) is Done
        },
{
    probes_only_read(true, git);
    lemma_probe_reports(true, git);
    reveal_strlit("pull");
    reveal_strlit("log");
    assert("pull"@.len() == 4);
    assert("log"@.len() == 3);
    if let StepView::Done((s, report)) = probe_step(true, git) {
        if clock.len() > 0 {
            let effective = effective_of(managed.selected.config, s, report, clock[0] as nat);
            let rest = git.skip(8);
            probes_only_read(false, rest.skip(2));
            pulling_is_free(managed.selected.config, s, clock[0] as nat);
        }
    }
}

/// Where it is safe and the hook before the pull has passed, a round makes Git
/// pull the branch that is followed, by fast-forward alone.
pub proof fn safe_pulls_are_made(
    managed: ManagedView,
    os: Seq<char>,
    dry_run: bool,
    verbose: bool,
    git: Seq<GitReplyView>,
    clock: Seq<u32>,
    commands: Seq<CommandOutcome>,
    s: SnapshotView,
)
    requires
        git.len() == 8,
        probe_step(true, git) == StepView::Done((s, report_of(s))),
        clock.len() > 0,
        is_safe(managed, s, clock[0] as nat, dry_run),
        before_hook(managed, s, first_outcome(commands)) is Done,
    ensures
        sync_round(managed, os, dry_run, verbose, git, clock, commands).step == SyncStepView::Git(
            pull_query(s.remote, s.remote_branch),
        ),
{
}

/// Whether something that is done is no more than talk.
pub open spec fn is_talk(effect: EffectView) -> bool {
    effect is Log || effect is RememberMessage
}

/// Whether all that is done is no more than talk.
pub open spec fn only_talk(effects: Seq<EffectView>) -> bool {
    forall|i: int| 0 <= i < effects.len() ==> is_talk(#[trigger] effects[i])
}

/// Whether a round records its outcome once and at its end, and forgets the
/// last error then, and records nothing before.
pub open spec fn records_once(round: SyncRoundView) -> bool {
    if round.step is Done {
        let n = round.effects.len() as int;
        &&& n >= 2
        &&& only_talk(round.effects.take(n - 2))
        &&& round.effects[n - 2] is Record
        &&& round.effects[n - 1] == EffectView::ForgetError
    } else {
        only_talk(round.effects)
    }
}

proof fn lemma_concluded(effects: Seq<EffectView>, s: SnapshotView, effective: EffectiveView)
    requires
        only_talk(effects),
    ensures
        records_once(at(effects + concluded(s, effective), SyncStepView::Done)),
{
    let all = effects + concluded(s, effective);
    assert(all.take(all.len() - 2) =~= effects);
}

proof fn lemma_warned(effects: Seq<EffectView>, step: CommandStepView)
    requires
        only_talk(effects),
    ensures
        only_talk(warned(effects, step)),
{
}

proof fn lemma_reread_records_once(
    repo: RepositoryView,
    effects: Seq<EffectView>,
    git: Seq<GitReplyView>,
    clock: Seq<u32>,
)
    requires
        only_talk(effects),
    ensures
        records_once(reread_round(repo, effects, git, clock)),
{
    if let StepView::Done((after, report)) = probe_step(false, git) {
        if clock.len() >= 2 {
            lemma_concluded(effects, after, effective_of(repo, after, report, clock[1] as nat));
        }
    }
}

proof fn lemma_after_pull_records_once(
    managed: ManagedView,
    effects: Seq<EffectView>,
    s: SnapshotView,
    git: Seq<GitReplyView>,
    clock: Seq<u32>,
    commands: Seq<CommandOutcome>,
)
    requires
        only_talk(effects),
    ensures
        records_once(after_pull_round(managed, effects, s, git, clock, commands)),
{
    let step = after_hook(managed, s, first_outcome(commands));
    lemma_warned(effects, step);
    lemma_reread_records_once(managed.selected.config, warned(effects, step), git, clock);
}

proof fn lemma_pull_records_once(
    managed: ManagedView,
    os: Seq<char>,
    effects: Seq<EffectView>,
    s: SnapshotView,
    git: Seq<GitReplyView>,
    clock: Seq<u32>,
    commands: Seq<CommandOutcome>,
)
    requires
        only_talk(effects),
    ensures
        records_once(before_pull_round(managed, os, effects, s, git, clock, commands)),
{
    let hook = before_hook(managed, s, first_outcome(commands));
    let passed = warned(effects, hook);
    lemma_warned(effects, hook);
    let announced = passed.push(info_line("pulling "@ + pulled_into(s)));
    assert(only_talk(announced));
    if let StepView::Done(head) = question_step(head_query(), git.skip(1)) {
        let complete = announced.push(info_line("auto-pull complete: "@ + head));
        assert(only_talk(complete));
        let rest = rest_of(commands, before_hook(managed, s, None));
        let notice = pull_notice(managed, os, first_outcome(rest));
        lemma_warned(complete, notice);
        lemma_after_pull_records_once(
            managed,
            warned(complete, notice),
            s,
            git.skip(2),
            clock,
            rest_of(rest, pull_notice(managed, os, None)),
        );
    }
}

/// Every round that goes well records its outcome once, at its end, and forgets
/// the last error; a round that has not ended well has recorded nothing.
pub proof fn rounds_are_recorded_once(
    managed: ManagedView,
    os: Seq<char>,
    dry_run: bool,
    verbose: bool,
    git: Seq<GitReplyView>,
    clock: Seq<u32>,
    commands: Seq<CommandOutcome>,
)
    ensures
        records_once(sync_round(managed, os, dry_run, verbose, git, clock, commands)),
{
    if let StepView::Done((s, report)) = probe_step(true, git) {
        if clock.len() > 0 {
            let effective = effective_of(managed.selected.config, s, report, clock[0] as nat);
            let effects = said(managed, effective, verbose);
            assert(only_talk(effects));
            let announced = effects.push(
                info_line("dry-run: would fast-forward pull "@ + pulled_into(s)),
            );
            assert(only_talk(announced));
            lemma_concluded(effects, s, effective);
            lemma_concluded(announced, s, effective);
            lemma_pull_records_once(managed, os, effects, s, git.skip(8), clock, commands);
        }
    }
}

proof fn lemma_memory_of_line(managed: ManagedView, effects: Seq<EffectView>, line: EffectView)
    requires
        line is Log,
    ensures
        after_effects(managed, effects.push(line)) == after_effects(managed, effects),
{
    assert(effects.push(line).drop_last() =~= effects);
}

proof fn lemma_memory_of_warning(
    managed: ManagedView,
    effects: Seq<EffectView>,
    step: CommandStepView,
)
    ensures
        after_effects(managed, warned(effects, step)) == after_effects(managed, effects),
{
    if let CommandStepView::Warn(message) = step {
        lemma_memory_of_line(managed, effects, warning(message));
    }
}

/// What is remembered of a round that began after some effects, and only
/// forgets the last error, where it goes well.
spec fn remembers(managed: ManagedView, effects: Seq<EffectView>, round: SyncRoundView) -> bool {
    let before = after_effects(managed, effects);
    after_effects(managed, round.effects) == if round.step is Done {
        ManagedView { last_error: None, ..before }
    } else {
        before
    }
}

proof fn lemma_memory_of_conclusion(
    managed: ManagedView,
    effects: Seq<EffectView>,
    s: SnapshotView,
    effective: EffectiveView,
)
    ensures
        remembers(
            managed,
            effects,
            at(effects + concluded(s, effective), SyncStepView::Done),
        ),
{
    let record = EffectView::Record { snapshot: s, effective };
    let all = effects + concluded(s, effective);
    assert(all =~= effects.push(record).push(EffectView::ForgetError));
    assert(all.drop_last() =~= effects.push(record));
    assert(effects.push(record).drop_last() =~= effects);
    assert(after_effects(managed, effects.push(record)) == after_effects(managed, effects));
    assert(all.last() == EffectView::ForgetError);
}

proof fn lemma_memory_of_after_pull(
    managed: ManagedView,
    effects: Seq<EffectView>,
    s: SnapshotView,
    git: Seq<GitReplyView>,
    clock: Seq<u32>,
    commands: Seq<CommandOutcome>,
)
    ensures
        remembers(managed, effects, after_pull_round(managed, effects, s, git, clock, commands)),
{
    let step = after_hook(managed, s, first_outcome(commands));
    lemma_memory_of_warning(managed, effects, step);
    if let StepView::Done((after, report)) = probe_step(false, git) {
        if clock.len() >= 2 {
            lemma_memory_of_conclusion(
                managed,
                warned(effects, step),
                after,
                effective_of(managed.selected.config, after, report, clock[1] as nat),
            );
        }
    }
}

proof fn lemma_memory_of_pull(
    managed: ManagedView,
    os: Seq<char>,
    effects: Seq<EffectView>,
    s: SnapshotView,
    git: Seq<GitReplyView>,
    clock: Seq<u32>,
    commands: Seq<CommandOutcome>,
)
    ensures
        remembers(
            managed,
            effects,
            before_pull_round(managed, os, effects, s, git, clock, commands),
        ),
{
    let hook = before_hook(managed, s, first_outcome(commands));
    let passed = warned(effects, hook);
    lemma_memory_of_warning(managed, effects, hook);
    let line = info_line("pulling "@ + pulled_into(s));
    lemma_memory_of_line(managed, passed, line);
    if let StepView::Done(head) = question_step(head_query(), git.skip(1)) {
        let last = info_line("auto-pull complete: "@ + head);
        lemma_memory_of_line(managed, passed.push(line), last);
        let complete = passed.push(line).push(last);
        let rest = rest_of(commands, before_hook(managed, s, None));
        let notice = pull_notice(managed, os, first_outcome(rest));
        lemma_memory_of_warning(managed, complete, notice);
        lemma_memory_of_after_pull(
            managed,
            warned(complete, notice),
            s,
            git.skip(2),
            clock,
            rest_of(rest, pull_notice(managed, os, None)),
        );
    }
}

/// Once a repository was probed and its report logged where that is called
/// for, the message of the report is the last message; the last error is
/// forgotten where the round goes well, and only there.
pub proof fn rounds_are_remembered(
    managed: ManagedView,
    os: Seq<char>,
    dry_run: bool,
    verbose: bool,
    git: Seq<GitReplyView>,
    clock: Seq<u32>,
    commands: Seq<CommandOutcome>,
    s: SnapshotView,
)
    requires
        probe_step(true, git) == StepView::Done((s, report_of(s))),
        clock.len() > 0,
    ensures
        ({
            let round = sync_round(managed, os, dry_run, verbose, git, clock, commands);
            let effective = effective_of(
                managed.selected.config,
                s,
                report_of(s),
                clock[0] as nat,
            );
            after_effects(managed, round.effects) == (ManagedView {
                last_message: Some(effective.message),
                last_error: if round.step is Done {
                    None
                } else {
                    managed.last_error
                },
                ..managed
            })
        }),
{
    let effective = effective_of(managed.selected.config, s, report_of(s), clock[0] as nat);
    let effects = said(managed, effective, verbose);
    assert(after_effects(managed, effects) == (ManagedView {
        last_message: Some(effective.message),
        ..managed
    })) by {
        if is_logged(managed, effective, verbose) {
            let line = EffectView::Log { level: effective.level, message: effective.message };
            lemma_memory_of_line(managed, Seq::empty(), line);
            assert(effects.drop_last() =~= Seq::<EffectView>::empty().push(line));
        }
    }
    let line = info_line("dry-run: would fast-forward pull "@ + pulled_into(s));
    lemma_memory_of_line(managed, effects, line);
    lemma_memory_of_conclusion(managed, effects, s, effective);
    lemma_memory_of_conclusion(managed, effects.push(line), s, effective);
    lemma_memory_of_pull(managed, os, effects, s, git.skip(8), clock, commands);
}

/// A repository that stays up to date is logged once, unless more is asked
/// for: the next round that comes to the same report says nothing.
pub proof fn idle_is_said_once(
    managed: ManagedView,
    os: Seq<char>,
    dry_run: bool,
    verbose: bool,
    git: Seq<GitReplyView>,
    clock: Seq<u32>,
    commands: Seq<CommandOutcome>,
    s: SnapshotView,
)
    requires
        probe_step(true, git) == StepView::Done((s, report_of(s))),
        clock.len() > 0,
        effective_of(managed.selected.config, s, report_of(s), clock[0] as nat).level == "IDLE"@,
    ensures
        said(
            after_effects(
                managed,
                sync_round(managed, os, dry_run, verbose, git, clock, commands).effects,
            ),
            effective_of(managed.selected.config, s, report_of(s), clock[0] as nat),
            false,
        ) == Seq::<EffectView>::empty(),
{
    rounds_are_remembered(managed, os, dry_run, verbose, git, clock, commands, s);
}

/// An error that was the last one is logged and recorded again and nothing
/// more; when an error has been dealt with it is the last one.
pub proof fn errors_are_told_once(
    managed: ManagedView,
    os: Seq<char>,
    error: Seq<char>,
    commands: Seq<CommandOutcome>,
)
    ensures
        managed.last_error == Some(error) ==> error_round(managed, os, error, commands) == at(
            noted(error).push(EffectView::RememberError { error }),
            SyncStepView::Done,
        ),
        error_round(managed, os, error, commands).step is Done ==> after_effects(
            managed,
            error_round(managed, os, error, commands).effects,
        ).last_error == Some(error),
{
    let round = error_round(managed, os, error, commands);
    if round.step is Done {
        assert(round.effects.last() == EffectView::RememberError { error });
    }
}

/// Every error is logged first and recorded second, whatever comes of what is
/// done about it besides, and nothing else is recorded.
pub proof fn errors_are_recorded(
    managed: ManagedView,
    os: Seq<char>,
    error: Seq<char>,
    commands: Seq<CommandOutcome>,
)
    ensures
        ({
            let effects = error_round(managed, os, error, commands).effects;
            &&& effects.len() >= 2
            &&& effects[0] == (EffectView::Log { level: "ERROR"@, message: error })
            &&& effects[1] == (EffectView::RecordError { error })
            &&& forall|i: int|
                2 <= i < effects.len() ==> !(#[trigger] effects[i] is Record)
                    && !(effects[i] is RecordError)
        }),
{
}

/// A new error is notified where the settings ask for it, and its hook is run
/// where there is one.
pub proof fn new_errors_are_told(managed: ManagedView, os: Seq<char>, error: Seq<char>)
    requires
        managed.last_error != Some(error),
    ensures
        match failure_notice(managed, os, error, None) {
            CommandStepView::Run(command) => error_round(managed, os, error, Seq::empty()).step
                == SyncStepView::Command(command),
            _ => match managed.selected.on_failure_command {
                Some(_) => error_round(managed, os, error, Seq::empty()).step is Command,
                None => true,
            },
        },
{
    notifications_never_fail(
        managed.selected.notification_settings,
        os,
        managed.selected.config.name,
        managed.repo_path,
        failure_notification(managed.selected.config.name, error),
        None,
    );
}

/// Whether all that a round has done is done by another, first and in the same
/// order.
pub open spec fn goes_on(round: SyncRoundView, later: SyncRoundView) -> bool {
    round.effects.is_prefix_of(later.effects)
}

proof fn lemma_prefix(a: Seq<EffectView>, b: Seq<EffectView>)
    ensures
        a.is_prefix_of(a + b),
{
    assert(a =~= (a + b).subrange(0, a.len() as int));
}

proof fn lemma_prefix_of_prefix(a: Seq<EffectView>, b: Seq<EffectView>, c: Seq<EffectView>)
    requires
        a.is_prefix_of(b),
        b.is_prefix_of(c),
    ensures
        a.is_prefix_of(c),
{
    assert(a =~= c.subrange(0, a.len() as int)) by {
        assert forall|i: int| 0 <= i < a.len() implies a[i] == c[i] by {
            assert(a[i] == b.subrange(0, a.len() as int)[i]);
            assert(b[i] == c.subrange(0, b.len() as int)[i]);
        }
    }
}

proof fn lemma_prefix_of_warned(effects: Seq<EffectView>, step: CommandStepView)
    ensures
        effects.is_prefix_of(warned(effects, step)),
{
    match step {
        CommandStepView::Warn(message) => {
            assert(warned(effects, step) =~= effects + seq![warning(message)]);
            lemma_prefix(effects, seq![warning(message)]);
        },
        _ => {
            assert(effects =~= effects.subrange(0, effects.len() as int));
        },
    }
}

proof fn lemma_reread_begins(
    repo: RepositoryView,
    effects: Seq<EffectView>,
    git: Seq<GitReplyView>,
    clock: Seq<u32>,
)
    ensures
        effects.is_prefix_of(reread_round(repo, effects, git, clock).effects),
{
    lemma_prefix(effects, Seq::empty());
    assert(effects + Seq::<EffectView>::empty() =~= effects);
    if let StepView::Done((after, report)) = probe_step(false, git) {
        if clock.len() >= 2 {
            lemma_prefix(
                effects,
                concluded(after, effective_of(repo, after, report, clock[1] as nat)),
            );
        }
    }
}

proof fn lemma_reread_goes_on(
    repo: RepositoryView,
    effects: Seq<EffectView>,
    git: Seq<GitReplyView>,
    clock: Seq<u32>,
    more_git: Seq<GitReplyView>,
    more_clock: Seq<u32>,
)
    ensures
        goes_on(
            reread_round(repo, effects, git, clock),
            reread_round(repo, effects, git + more_git, clock + more_clock),
        ),
{
    let later = reread_round(repo, effects, git + more_git, clock + more_clock);
    lemma_reread_begins(repo, effects, git + more_git, clock + more_clock);
    if !(probe_step(false, git) is Git) {
        probes_are_steady(false, git, more_git);
        if probe_step(false, git) is Done && clock.len() >= 2 {
            assert((clock + more_clock)[1] == clock[1]);
            assert(later.effects =~= later.effects.subrange(0, later.effects.len() as int));
        }
    }
}

proof fn lemma_after_pull_begins(
    managed: ManagedView,
    effects: Seq<EffectView>,
    s: SnapshotView,
    git: Seq<GitReplyView>,
    clock: Seq<u32>,
    commands: Seq<CommandOutcome>,
)
    ensures
        effects.is_prefix_of(
            after_pull_round(managed, effects, s, git, clock, commands).effects,
        ),
{
    let step = after_hook(managed, s, first_outcome(commands));
    let repo = managed.selected.config;
    lemma_prefix(effects, Seq::empty());
    assert(effects + Seq::<EffectView>::empty() =~= effects);
    lemma_prefix_of_warned(effects, step);
    lemma_reread_begins(repo, warned(effects, step), git, clock);
    lemma_prefix_of_prefix(
        effects,
        warned(effects, step),
        reread_round(repo, warned(effects, step), git, clock).effects,
    );
}

proof fn lemma_first_outcome_stays(commands: Seq<CommandOutcome>, more: Seq<CommandOutcome>)
    requires
        commands.len() > 0,
    ensures
        first_outcome(commands + more) == first_outcome(commands),
        (commands + more).skip(1) == commands.skip(1) + more,
{
    assert((commands + more).skip(1) =~= commands.skip(1) + more);
}

proof fn lemma_after_pull_goes_on(
    managed: ManagedView,
    effects: Seq<EffectView>,
    s: SnapshotView,
    git: Seq<GitReplyView>,
    clock: Seq<u32>,
    commands: Seq<CommandOutcome>,
    more_git: Seq<GitReplyView>,
    more_clock: Seq<u32>,
    more: Seq<CommandOutcome>,
)
    ensures
        goes_on(
            after_pull_round(managed, effects, s, git, clock, commands),
            after_pull_round(
                managed,
                effects,
                s,
                git + more_git,
                clock + more_clock,
                commands + more,
            ),
        ),
{
    let step = after_hook(managed, s, first_outcome(commands));
    lemma_after_pull_begins(
        managed,
        effects,
        s,
        git + more_git,
        clock + more_clock,
        commands + more,
    );
    if !(step is Run) {
        if commands.len() > 0 {
            lemma_first_outcome_stays(commands, more);
        }
        assert(after_hook(managed, s, first_outcome(commands + more)) == step);
        lemma_reread_goes_on(
            managed.selected.config,
            warned(effects, step),
            git,
            clock,
            more_git,
            more_clock,
        );
    }
}

proof fn lemma_pulled_begins(
    managed: ManagedView,
    os: Seq<char>,
    effects: Seq<EffectView>,
    s: SnapshotView,
    git: Seq<GitReplyView>,
    clock: Seq<u32>,
    commands: Seq<CommandOutcome>,
)
    ensures
        effects.is_prefix_of(
            pulled_round(managed, os, effects, s, git, clock, commands).effects,
        ),
{
    let step = pull_notice(managed, os, first_outcome(commands));
    let rest = rest_of(commands, pull_notice(managed, os, None));
    lemma_prefix(effects, Seq::empty());
    assert(effects + Seq::<EffectView>::empty() =~= effects);
    lemma_prefix_of_warned(effects, step);
    lemma_after_pull_begins(managed, warned(effects, step), s, git, clock, rest);
    lemma_prefix_of_prefix(
        effects,
        warned(effects, step),
        after_pull_round(managed, warned(effects, step), s, git, clock, rest).effects,
    );
}

proof fn lemma_pulled_goes_on(
    managed: ManagedView,
    os: Seq<char>,
    effects: Seq<EffectView>,
    s: SnapshotView,
    git: Seq<GitReplyView>,
    clock: Seq<u32>,
    commands: Seq<CommandOutcome>,
    more_git: Seq<GitReplyView>,
    more_clock: Seq<u32>,
    more: Seq<CommandOutcome>,
)
    ensures
        goes_on(
            pulled_round(managed, os, effects, s, git, clock, commands),
            pulled_round(
                managed,
                os,
                effects,
                s,
                git + more_git,
                clock + more_clock,
                commands + more,
            ),
        ),
{
    let step = pull_notice(managed, os, first_outcome(commands));
    let unrun = pull_notice(managed, os, None);
    lemma_pulled_begins(
        managed,
        os,
        effects,
        s,
        git + more_git,
        clock + more_clock,
        commands + more,
    );
    if !(step is Run) {
        if commands.len() > 0 {
            lemma_first_outcome_stays(commands, more);
        }
        assert(pull_notice(managed, os, first_outcome(commands + more)) == step);
        assert(rest_of(commands + more, unrun) == rest_of(commands, unrun) + more);
        lemma_after_pull_goes_on(
            managed,
            warned(effects, step),
            s,
            git,
            clock,
            rest_of(commands, unrun),
            more_git,
            more_clock,
            more,
        );
    }
}

proof fn lemma_pull_begins(
    managed: ManagedView,
    os: Seq<char>,
    effects: Seq<EffectView>,
    s: SnapshotView,
    git: Seq<GitReplyView>,
    clock: Seq<u32>,
    commands: Seq<CommandOutcome>,
)
    ensures
        effects.push(info_line("pulling "@ + pulled_into(s))).is_prefix_of(
            pull_round(managed, os, effects, s, git, clock, commands).effects,
        ),
{
    let announced = effects.push(info_line("pulling "@ + pulled_into(s)));
    lemma_prefix(announced, Seq::empty());
    assert(announced + Seq::<EffectView>::empty() =~= announced);
    if errand_step(pull_query(s.remote, s.remote_branch), git) is Done {
        if let StepView::Done(head) = question_step(head_query(), git.skip(1)) {
            let line = info_line("auto-pull complete: "@ + head);
            let complete = announced.push(line);
            assert(complete =~= announced + seq![line]);
            lemma_prefix(announced, seq![line]);
            lemma_pulled_begins(managed, os, complete, s, git.skip(2), clock, commands);
            lemma_prefix_of_prefix(
                announced,
                complete,
                pulled_round(managed, os, complete, s, git.skip(2), clock, commands).effects,
            );
        }
    }
}

proof fn lemma_pull_goes_on(
    managed: ManagedView,
    os: Seq<char>,
    effects: Seq<EffectView>,
    s: SnapshotView,
    git: Seq<GitReplyView>,
    clock: Seq<u32>,
    commands: Seq<CommandOutcome>,
    more_git: Seq<GitReplyView>,
    more_clock: Seq<u32>,
    more: Seq<CommandOutcome>,
)
    ensures
        goes_on(
            pull_round(managed, os, effects, s, git, clock, commands),
            pull_round(
                managed,
                os,
                effects,
                s,
                git + more_git,
                clock + more_clock,
                commands + more,
            ),
        ),
{
    let announced = effects.push(info_line("pulling "@ + pulled_into(s)));
    lemma_pull_begins(
        managed,
        os,
        effects,
        s,
        git + more_git,
        clock + more_clock,
        commands + more,
    );
    if git.len() > 0 && git[0] is Ok {
        assert((git + more_git)[0] == git[0]);
        assert((git + more_git).skip(1) =~= git.skip(1) + more_git);
        if git.len() > 1 {
            assert((git + more_git).skip(1)[0] == git.skip(1)[0]);
            if let Ok(head) = git.skip(1)[0] {
                assert((git + more_git).skip(2) =~= git.skip(2) + more_git);
                lemma_pulled_goes_on(
                    managed,
                    os,
                    announced.push(info_line("auto-pull complete: "@ + head)),
                    s,
                    git.skip(2),
                    clock,
                    commands,
                    more_git,
                    more_clock,
                    more,
                );
            }
        }
    }
}

proof fn lemma_before_pull_begins(
    managed: ManagedView,
    os: Seq<char>,
    effects: Seq<EffectView>,
    s: SnapshotView,
    git: Seq<GitReplyView>,
    clock: Seq<u32>,
    commands: Seq<CommandOutcome>,
)
    ensures
        effects.is_prefix_of(
            before_pull_round(managed, os, effects, s, git, clock, commands).effects,
        ),
{
    let step = before_hook(managed, s, first_outcome(commands));
    let rest = rest_of(commands, before_hook(managed, s, None));
    let passed = warned(effects, step);
    let line = info_line("pulling "@ + pulled_into(s));
    lemma_prefix(effects, Seq::empty());
    assert(effects + Seq::<EffectView>::empty() =~= effects);
    lemma_prefix_of_warned(effects, step);
    lemma_prefix(passed, seq![line]);
    assert(passed.push(line) =~= passed + seq![line]);
    lemma_pull_begins(managed, os, passed, s, git, clock, rest);
    lemma_prefix_of_prefix(effects, passed, passed.push(line));
    lemma_prefix_of_prefix(
        effects,
        passed.push(line),
        pull_round(managed, os, passed, s, git, clock, rest).effects,
    );
}

proof fn lemma_before_pull_goes_on(
    managed: ManagedView,
    os: Seq<char>,
    effects: Seq<EffectView>,
    s: SnapshotView,
    git: Seq<GitReplyView>,
    clock: Seq<u32>,
    commands: Seq<CommandOutcome>,
    more_git: Seq<GitReplyView>,
    more_clock: Seq<u32>,
    more: Seq<CommandOutcome>,
)
    ensures
        goes_on(
            before_pull_round(managed, os, effects, s, git, clock, commands),
            before_pull_round(
                managed,
                os,
                effects,
                s,
                git + more_git,
                clock + more_clock,
                commands + more,
            ),
        ),
{
    let step = before_hook(managed, s, first_outcome(commands));
    let unrun = before_hook(managed, s, None);
    lemma_before_pull_begins(
        managed,
        os,
        effects,
        s,
        git + more_git,
        clock + more_clock,
        commands + more,
    );
    if !(step is Run) {
        if commands.len() > 0 {
            lemma_first_outcome_stays(commands, more);
        }
        assert(before_hook(managed, s, first_outcome(commands + more)) == step);
        assert(rest_of(commands + more, unrun) == rest_of(commands, unrun) + more);
        lemma_pull_goes_on(
            managed,
            os,
            warned(effects, step),
            s,
            git,
            clock,
            rest_of(commands, unrun),
            more_git,
            more_clock,
            more,
        );
    }
}

/// What a round has done stays done: whatever more is answered, it has done all
/// that it had done before, in the same order, and perhaps more.
pub proof fn nothing_is_taken_back(
    managed: ManagedView,
    os: Seq<char>,
    dry_run: bool,
    verbose: bool,
    git: Seq<GitReplyView>,
    clock: Seq<u32>,
    commands: Seq<CommandOutcome>,
    more_git: Seq<GitReplyView>,
    more_clock: Seq<u32>,
    more: Seq<CommandOutcome>,
)
    ensures
        goes_on(
            sync_round(managed, os, dry_run, verbose, git, clock, commands),
            sync_round(
                managed,
                os,
                dry_run,
                verbose,
                git + more_git,
                clock + more_clock,
                commands + more,
            ),
        ),
{
    let round = sync_round(managed, os, dry_run, verbose, git, clock, commands);
    let later = sync_round(
        managed,
        os,
        dry_run,
        verbose,
        git + more_git,
        clock + more_clock,
        commands + more,
    );
    if probe_step(true, git) is Git {
        lemma_prefix(Seq::empty(), later.effects);
        assert(Seq::<EffectView>::empty() + later.effects =~= later.effects);
    } else {
        probes_are_steady(true, git, more_git);
        if let StepView::Done((s, report)) = probe_step(true, git) {
            if clock.len() == 0 {
                lemma_prefix(Seq::empty(), later.effects);
                assert(Seq::<EffectView>::empty() + later.effects =~= later.effects);
            } else {
                assert((clock + more_clock)[0] == clock[0]);
                assert((git + more_git).skip(8) =~= git.skip(8) + more_git);
                let effective = effective_of(
                    managed.selected.config,
                    s,
                    report,
                    clock[0] as nat,
                );
                lemma_before_pull_goes_on(
                    managed,
                    os,
                    said(managed, effective, verbose),
                    s,
                    git.skip(8),
                    clock,
                    commands,
                    more_git,
                    more_clock,
                    more,
                );
                assert(later.effects =~= later.effects.subrange(0, later.effects.len() as int));
            }
        } else {
            assert(later.effects =~= later.effects.subrange(0, later.effects.len() as int));
        }
    }
}

/// What was done about an error stays done, whatever more comes of commands.
pub proof fn nothing_about_errors_is_taken_back(
    managed: ManagedView,
    os: Seq<char>,
    error: Seq<char>,
    commands: Seq<CommandOutcome>,
    more: Seq<CommandOutcome>,
)
    ensures
        goes_on(
            error_round(managed, os, error, commands),
            error_round(managed, os, error, commands + more),
        ),
{
    let round = error_round(managed, os, error, commands);
    let later = error_round(managed, os, error, commands + more);
    if managed.last_error != Some(error) {
        let step = failure_notice(managed, os, error, first_outcome(commands));
        let unrun = failure_notice(managed, os, error, None);
        let later_step = failure_notice(managed, os, error, first_outcome(commands + more));
        let later_rest = rest_of(commands + more, unrun);
        lemma_failure_hook_begins(managed, noted(error), later_step, error, later_rest);
        if !(step is Run) {
            if commands.len() > 0 {
                lemma_first_outcome_stays(commands, more);
            }
            assert(later_step == step);
            let rest = rest_of(commands, unrun);
            assert(later_rest == rest + more);
            let hook = failure_hook(managed, error, first_outcome(rest));
            let effects = warned(noted(error), step);
            lemma_failure_hook_begins(managed, effects, CommandStepView::Done, error, later_rest);
            if !(hook is Run) {
                if rest.len() > 0 {
                    lemma_first_outcome_stays(rest, more);
                }
                assert(round.effects =~= later.effects);
            }
        }
    }
    assert(later.effects =~= later.effects.subrange(0, later.effects.len() as int));
}

proof fn lemma_failure_hook_begins(
    managed: ManagedView,
    effects: Seq<EffectView>,
    step: CommandStepView,
    error: Seq<char>,
    commands: Seq<CommandOutcome>,
)
    ensures
        effects.is_prefix_of(effects),
        effects.is_prefix_of(
            failure_hook_round(managed, warned(effects, step), error, commands).effects,
        ),
{
    let start = warned(effects, step);
    let hook = failure_hook(managed, error, first_outcome(commands));
    let end = warned(start, hook);
    let memory = EffectView::RememberError { error };
    assert(effects =~= effects.subrange(0, effects.len() as int));
    lemma_prefix_of_warned(effects, step);
    lemma_prefix_of_warned(start, hook);
    lemma_prefix(end, seq![memory]);
    assert(end.push(memory) =~= end + seq![memory]);
    lemma_prefix_of_prefix(effects, start, end);
    lemma_prefix_of_prefix(effects, end, end.push(memory));
}

/// A round ends: seventeen questions are asked of Git, two of the clock, and
/// three commands are run at most.
pub proof fn rounds_end(
    managed: ManagedView,
    os: Seq<char>,
    dry_run: bool,
    verbose: bool,
    git: Seq<GitReplyView>,
    clock: Seq<u32>,
    commands: Seq<CommandOutcome>,
)
    requires
        git.len() >= 17,
        clock.len() >= 2,
        commands.len() >= 3,
    ensures
        ({
            let step = sync_round(managed, os, dry_run, verbose, git, clock, commands).step;
            step is Done || step is Failed
        }),
{
    probes_end(true, git);
    if let StepView::Done((s, _)) = probe_step(true, git) {
        let rest = git.skip(8).skip(2);
        lemma_short_probe_ends(rest);
    }
}

proof fn lemma_short_probe_ends(git: Seq<GitReplyView>)
    requires
        git.len() >= 7,
    ensures
        !(probe_step(false, git) is Git),
{
}

/// Dealing with an error ends: two commands are run at most.
pub proof fn error_rounds_end(
    managed: ManagedView,
    os: Seq<char>,
    error: Seq<char>,
    commands: Seq<CommandOutcome>,
)
    requires
        commands.len() >= 2,
    ensures
        ({
            let step = error_round(managed, os, error, commands).step;
            step is Done || step is Failed
        }),
{
}

/// Whether a command was run and succeeded.
pub open spec fn has_passed(outcome: CommandOutcome) -> bool {
    outcome matches CommandOutcome::Exited { success, .. } && success
}

/// Whether a time is not in quiet hours that start at `s` and end at `e`.
pub open spec fn is_awake(s: nat, e: nat, now: nat) -> bool {
    if s < e {
        now < s || e <= now
    } else {
        e <= now && now < s
    }
}

/// A round makes Git pull only where Git said after the fetch that there are no
/// uncommitted changes, no commits of the branch's own, and some that it lacks;
/// where the repository is not paused, the branch is allowed and the time is
/// not quiet; where nothing asks for a dry run; and where the hook before the
/// pull, if there is one, was run and succeeded. It pulls what the branch
/// follows, and only by moving it forward.
pub proof fn pulls_are_clean(
    managed: ManagedView,
    os: Seq<char>,
    dry_run: bool,
    verbose: bool,
    git: Seq<GitReplyView>,
    clock: Seq<u32>,
    commands: Seq<CommandOutcome>,
)
    requires
        sync_round(managed, os, dry_run, verbose, git, clock, commands).step
            matches SyncStepView::Git(args) && args.len() > 0 && args[0] == "pull"@,
    ensures
        git.len() >= 8,
        git[3] is Ok,
        git[6] matches Ok(status) && status.len() == 0,
        git[7] matches Ok(text) && (counts_of(text) matches Ok((ahead, behind)) && ahead == 0
            && behind > 0),
        git[4] matches Ok(branch) && {
            let branches = managed.selected.config.allowed_branches;
            branches.len() == 0 || branches.contains(branch)
        },
        !managed.selected.config.paused,
        !managed.selected.config.dry_run,
        !dry_run,
        clock.len() > 0,
        managed.selected.config.quiet_hours matches Some(hours) ==> (clock_time(hours.start)
            matches Some(s) ==> (clock_time(hours.end) matches Some(e) ==> is_awake(
            s,
            e,
            clock[0] as nat,
        ))),
        managed.selected.before_pull_command is Some ==> commands.len() > 0 && has_passed(
            commands[0],
        ),
        sync_round(managed, os, dry_run, verbose, git, clock, commands).step
            matches SyncStepView::Git(args) && {
            &&& args.len() == 5
            &&& args[1] == "--ff-only"@ && args[2] == "--no-rebase"@
            &&& git[5] == Ok::<Seq<char>, RepoErrorView>(args[3] + "/"@ + args[4])
        },
{
    pulls_only_when_safe(managed, os, dry_run, verbose, git, clock, commands);
    probes_find_what_was_read_last(true, git);
    let repo = managed.selected.config;
    if let StepView::Done((s, report)) = probe_step(true, git) {
        probes_fetch_what_is_followed(git);
        let now = clock[0] as nat;
        if let Some(hours) = repo.quiet_hours {
            if let Some(start) = clock_time(hours.start) {
                if let Some(end) = clock_time(hours.end) {
                    quiet_hours_hold_to_the_second(hours, start, end, now);
                }
            }
        }
        if let Some(command) = managed.selected.before_pull_command {
            if commands.len() > 0 {
                pull_hooks_pass_if_they_succeed(
                    repo.name,
                    managed.repo_path,
                    "before_pull"@,
                    command,
                    s,
                    true,
                    commands[0],
                );
            }
        }
        lemma_probe_reports(true, git);
        probes_only_read(true, git);
        let rest = git.skip(8);
        probes_only_read(false, rest.skip(2));
        reveal_strlit("pull");
        reveal_strlit("log");
        assert("pull"@.len() == 4);
        assert("log"@.len() == 3);
        assert(sync_round(managed, os, dry_run, verbose, git, clock, commands).step
            == SyncStepView::Git(pull_query(s.remote, s.remote_branch)));
    }
}

/// Where Git said after the fetch that the branch lacks commits and there is
/// nothing against pulling them, and the hook before the pull is passed or there
/// is none, a round makes Git pull them next.
pub proof fn clean_pulls_are_made(
    managed: ManagedView,
    os: Seq<char>,
    verbose: bool,
    git: Seq<GitReplyView>,
    clock: Seq<u32>,
    commands: Seq<CommandOutcome>,
    remote: Seq<char>,
    remote_branch: Seq<char>,
    behind: nat,
)
    requires
        git.len() == 8,
        context_step(git) is Done,
        git[3] is Ok,
        git[4] matches Ok(branch) && branch != "HEAD"@ && {
            let branches = managed.selected.config.allowed_branches;
            branches.len() == 0 || branches.contains(branch)
        },
        git[5] == Ok::<Seq<char>, RepoErrorView>(remote + "/"@ + remote_branch),
        !remote.contains('/'),
        git[6] matches Ok(status) && status.len() == 0,
        git[7] == Ok::<Seq<char>, RepoErrorView>(decimal(0) + "\t"@ + decimal(behind)),
        0 < behind <= 0xffff_ffff,
        !managed.selected.config.paused,
        !managed.selected.config.dry_run,
        clock.len() > 0,
        managed.selected.config.quiet_hours matches Some(hours) ==> (clock_time(hours.start)
            matches Some(s) ==> (clock_time(hours.end) matches Some(e) ==> is_awake(
            s,
            e,
            clock[0] as nat,
        ))),
        managed.selected.before_pull_command is Some ==> commands.len() > 0 && has_passed(
            commands[0],
        ),
    ensures
        sync_round(managed, os, false, verbose, git, clock, commands).step == SyncStepView::Git(
            seq!["pull"@, "--ff-only"@, "--no-rebase"@, remote, remote_branch],
        ),
{
    let rest = git.skip(4);
    let upstream = remote + "/"@ + remote_branch;
    let now = clock[0] as nat;
    reveal_strlit("/");
    assert("/"@ =~= seq!['/']);
    splits_are_at_the_first(remote, '/', remote_branch);
    assert(rest[0] == git[4] && rest[1] == git[5] && rest[2] == git[6] && rest[3] == git[7]);
    assert(upstream[remote.len() as int] == '/');
    contexts_fail_for_a_reason(rest);
    snapshots_say_what_git_said(rest, 0, behind);
    let s = snapshot_step(rest)->Done_0;
    assert(probe_step(true, git) == StepView::Done((s, report_of(s))));
    assert(s.remote == remote && s.remote_branch == remote_branch);
    if let Some(hours) = managed.selected.config.quiet_hours {
        if let Some(start) = clock_time(hours.start) {
            if let Some(end) = clock_time(hours.end) {
                quiet_hours_hold_to_the_second(hours, start, end, now);
            }
        }
    }
    if let Some(command) = managed.selected.before_pull_command {
        pull_hooks_pass_if_they_succeed(
            managed.selected.config.name,
            managed.repo_path,
            "before_pull"@,
            command,
            s,
            true,
            commands[0],
        );
    }
    safe_pulls_are_made(managed, os, false, verbose, git, clock, commands, s);
}

/// A round that is dry, or is for a repository that is paused, never makes Git
/// pull and runs no command, whatever is found.
pub proof fn dry_and_paused_rounds_touch_nothing(
    managed: ManagedView,
    os: Seq<char>,
    dry_run: bool,
    verbose: bool,
    git: Seq<GitReplyView>,
    clock: Seq<u32>,
    commands: Seq<CommandOutcome>,
)
    requires
        dry_run || managed.selected.config.dry_run || managed.selected.config.paused,
    ensures
        ({
            let step = sync_round(managed, os, dry_run, verbose, git, clock, commands).step;
            &&& !(step is Command)
            &&& !(step matches SyncStepView::Git(args) && args.len() > 0 && args[0] == "pull"@)
        }),
{
    let round = sync_round(managed, os, dry_run, verbose, git, clock, commands);
    if is_pulling(round) {
        pulls_are_clean(managed, os, dry_run, verbose, git, clock, commands);
    }
}

/// A round asks for nothing but what Git says until the repository was fetched
/// and probed, then for the time, and only then for anything else.
pub proof fn rounds_begin_with_a_probe(
    managed: ManagedView,
    os: Seq<char>,
    dry_run: bool,
    verbose: bool,
    git: Seq<GitReplyView>,
    clock: Seq<u32>,
    commands: Seq<CommandOutcome>,
)
    requires
        git.len() < 8,
    ensures
        ({
            let round = sync_round(managed, os, dry_run, verbose, git, clock, commands);
            &&& round.step is Git || round.step is Failed
            &&& round.effects.len() == 0
        }),
{
}

/// A round that does not pull records the snapshot that was read after the
/// fetch; one that has pulled records the one that was read after the pull.
pub proof fn rounds_record_what_was_read_last(
    managed: ManagedView,
    os: Seq<char>,
    dry_run: bool,
    verbose: bool,
    git: Seq<GitReplyView>,
    clock: Seq<u32>,
    commands: Seq<CommandOutcome>,
)
    requires
        sync_round(managed, os, dry_run, verbose, git, clock, commands).step is Done,
    ensures
        ({
            let round = sync_round(managed, os, dry_run, verbose, git, clock, commands);
            let n = round.effects.len();
            let again = git.skip(4);
            &&& n >= 2
            &&& snapshot_step(again) matches StepView::Done(s) && (round.effects[n - 2]
                matches EffectView::Record { snapshot, effective } && {
                let blocked = effective_of(
                    managed.selected.config,
                    s,
                    report_of(s),
                    clock[0] as nat,
                ).blocks_auto_pull;
                if blocked || s.behind == 0 || dry_run || managed.selected.config.dry_run {
                    snapshot == s && effective == effective_of(
                        managed.selected.config,
                        s,
                        report_of(s),
                        clock[0] as nat,
                    )
                } else {
                    &&& snapshot_step(git.skip(13)) == StepView::Done(snapshot)
                    &&& clock.len() >= 2
                    &&& effective == effective_of(
                        managed.selected.config,
                        snapshot,
                        report_of(snapshot),
                        clock[1] as nat,
                    )
                }
            })
        }),
{
    rounds_are_recorded_once(managed, os, dry_run, verbose, git, clock, commands);
    lemma_probe_reports(true, git);
    let again = git.skip(4);
    let rest = git.skip(8);
    if git.len() >= 10 {
        assert(rest.skip(2) =~= git.skip(10));
    }
    if git.len() >= 13 {
        assert(git.skip(10).skip(3) =~= git.skip(13));
    }
    if let StepView::Done((s, report)) = probe_step(true, git) {
        assert(snapshot_step(again) == StepView::Done(s));
        decisions_are_conservative(s);
        let effective = effective_of(managed.selected.config, s, report, clock[0] as nat);
        pulling_is_free(managed.selected.config, s, clock[0] as nat);
        lemma_probe_reports(false, git.skip(10));
        let round = sync_round(managed, os, dry_run, verbose, git, clock, commands);
        let n = round.effects.len();
        if effective.blocks_auto_pull || s.behind == 0 {
            assert(round.effects[n - 2] == EffectView::Record { snapshot: s, effective });
        } else if dry_run || managed.selected.config.dry_run {
            assert(round.effects[n - 2] == EffectView::Record { snapshot: s, effective });
        } else {
            let (after, found) = probe_step(false, git.skip(10))->Done_0;
            let last = effective_of(managed.selected.config, after, found, clock[1] as nat);
            assert(round.effects[n - 2] == EffectView::Record { snapshot: after, effective: last });
        }
    }
}

/// What is found of a repository is logged, and remembered as the last message,
/// exactly if it is no idle state, or was not the last message, or all is to be
/// logged.
pub proof fn what_is_new_is_said(
    managed: ManagedView,
    os: Seq<char>,
    dry_run: bool,
    verbose: bool,
    git: Seq<GitReplyView>,
    clock: Seq<u32>,
    commands: Seq<CommandOutcome>,
    s: SnapshotView,
)
    requires
        probe_step(true, git) == StepView::Done((s, report_of(s))),
        clock.len() > 0,
    ensures
        ({
            let effective = effective_of(
                managed.selected.config,
                s,
                report_of(s),
                clock[0] as nat,
            );
            let effects = sync_round(managed, os, dry_run, verbose, git, clock, commands).effects;
            if verbose || effective.level != "IDLE"@ || managed.last_message != Some(
                effective.message,
            ) {
                &&& effects.len() >= 2
                &&& effects[0] == (EffectView::Log {
                    level: effective.level,
                    message: effective.message,
                })
                &&& effects[1] == (EffectView::RememberMessage { message: effective.message })
            } else {
                effects.len() == 0 || !(effects[0] is RememberMessage) && (effects[0]
                    matches EffectView::Log { level, .. } ==> level != "IDLE"@)
            }
        }),
{
    let effective = effective_of(managed.selected.config, s, report_of(s), clock[0] as nat);
    let effects = said(managed, effective, verbose);
    let rest = git.skip(8);
    lemma_pull_keeps_effects(managed, os, effects, s, rest, clock, commands);
    reports_are_as_loud_as_needed(s);
    reveal_strlit("IDLE");
    reveal_strlit("INFO");
    reveal_strlit("WARN");
    assert("IDLE"@[1] == 'D' && "INFO"@[1] == 'N' && "WARN"@[1] == 'A');
    if !effective.blocks_auto_pull && s.behind > 0 {
        pulling_is_free(managed.selected.config, s, clock[0] as nat);
        assert(effective.level == "INFO"@);
    }
}

proof fn lemma_pull_keeps_effects(
    managed: ManagedView,
    os: Seq<char>,
    effects: Seq<EffectView>,
    s: SnapshotView,
    git: Seq<GitReplyView>,
    clock: Seq<u32>,
    commands: Seq<CommandOutcome>,
)
    ensures
        ({
            let later = before_pull_round(managed, os, effects, s, git, clock, commands).effects;
            &&& effects.len() <= later.len()
            &&& forall|i: int| 0 <= i < effects.len() ==> #[trigger] later[i] == effects[i]
        }),
{
    let hook = before_hook(managed, s, first_outcome(commands));
    let passed = warned(effects, hook);
    let announced = passed.push(info_line("pulling "@ + pulled_into(s)));
    if let StepView::Done(head) = question_step(head_query(), git.skip(1)) {
        let complete = announced.push(info_line("auto-pull complete: "@ + head));
        let rest = rest_of(commands, before_hook(managed, s, None));
        let notice = pull_notice(managed, os, first_outcome(rest));
        let noticed = warned(complete, notice);
        let last = rest_of(rest, pull_notice(managed, os, None));
        let step = after_hook(managed, s, first_outcome(last));
        let all = warned(noticed, step);
        assert(forall|i: int| 0 <= i < effects.len() ==> #[trigger] all[i] == effects[i]);
    }
}

/// A pull is announced before it is made: with the branch that is followed and
/// the one that it is pulled into.
pub proof fn pulls_are_announced(
    managed: ManagedView,
    os: Seq<char>,
    dry_run: bool,
    verbose: bool,
    git: Seq<GitReplyView>,
    clock: Seq<u32>,
    commands: Seq<CommandOutcome>,
)
    requires
        sync_round(managed, os, dry_run, verbose, git, clock, commands).step
            matches SyncStepView::Git(args) && args.len() > 0 && args[0] == "pull"@,
    ensures
        ({
            let effects = sync_round(managed, os, dry_run, verbose, git, clock, commands).effects;
            &&& effects.len() > 0
            &&& effects.last() matches EffectView::Log { level, message } && {
                &&& level == "INFO"@
                &&& git[5] matches Ok(upstream) && holds(message, upstream)
                &&& git[4] matches Ok(branch) && branch.is_suffix_of(message)
            }
        }),
{
    pulls_only_when_safe(managed, os, dry_run, verbose, git, clock, commands);
    pulls_are_clean(managed, os, dry_run, verbose, git, clock, commands);
    probes_find_what_was_read_last(true, git);
    if let StepView::Done((s, report)) = probe_step(true, git) {
        lemma_probe_reports(true, git);
        let rest = git.skip(8);
        probes_only_read(false, rest.skip(2));
        reveal_strlit("pull");
        reveal_strlit("log");
        assert("pull"@.len() == 4);
        assert("log"@.len() == 3);
        let message = "pulling "@ + pulled_into(s);
        let effects = sync_round(managed, os, dry_run, verbose, git, clock, commands).effects;
        assert(effects.last() == info_line(message));
        assert(message =~= "pulling "@ + s.upstream + (" into "@ + s.branch));
        assert(is_around(message, "pulling "@, s.upstream, " into "@ + s.branch));
        assert(s.branch =~= message.subrange(
            message.len() - s.branch.len(),
            message.len() as int,
        ));
    }
}

/// A hook before a pull that does not pass ends the round with an error, before
/// anything is pulled; one that has not run yet is run first.
pub proof fn failed_hooks_stop_the_pull(
    managed: ManagedView,
    os: Seq<char>,
    effects: Seq<EffectView>,
    s: SnapshotView,
    git: Seq<GitReplyView>,
    clock: Seq<u32>,
    commands: Seq<CommandOutcome>,
    command: Seq<char>,
)
    requires
        managed.selected.before_pull_command == Some(command),
    ensures
        ({
            let round = before_pull_round(managed, os, effects, s, git, clock, commands);
            &&& commands.len() == 0 ==> round.effects == effects && (round.step
                matches SyncStepView::Command(run) && run.args.len() == 2 && run.args[1] == command
                && run.env.contains(("REPO_AUTO_PULLER_EVENT"@, "before_pull"@))
                && run.env.contains(("REPO_AUTO_PULLER_REPO_NAME"@, managed.selected.config.name))
                && run.env.contains(("REPO_AUTO_PULLER_REPO_PATH"@, managed.repo_path))
                && run.env.contains(("REPO_AUTO_PULLER_BRANCH"@, s.branch)))
            &&& commands.len() > 0 && !has_passed(commands[0]) ==> round.step is Failed
                && round.effects == effects
        }),
{
    let name = managed.selected.config.name;
    let path = managed.repo_path;
    pull_hooks_are_told_of_the_pull(name, path, "before_pull"@, Some(command), s, true);
    if commands.len() > 0 {
        pull_hooks_pass_if_they_succeed(
            name,
            path,
            "before_pull"@,
            command,
            s,
            true,
            commands[0],
        );
    }
}

/// A hook after a pull is run once the pull is complete and was notified, and
/// one that was run and did not succeed is warned of and stops nothing.
pub proof fn later_hooks_only_warn(
    managed: ManagedView,
    effects: Seq<EffectView>,
    s: SnapshotView,
    git: Seq<GitReplyView>,
    clock: Seq<u32>,
    commands: Seq<CommandOutcome>,
    command: Seq<char>,
)
    requires
        managed.selected.after_pull_command == Some(command),
    ensures
        ({
            let round = after_pull_round(managed, effects, s, git, clock, commands);
            &&& commands.len() == 0 ==> (round.step matches SyncStepView::Command(run)
                && run.args.len() == 2 && run.args[1] == command && run.env.contains(
                ("REPO_AUTO_PULLER_EVENT"@, "after_pull"@),
            ))
            &&& commands.len() > 0 && commands[0] is Exited ==> {
                let quiet = reread_round(
                    managed.selected.config,
                    if has_passed(commands[0]) {
                        effects
                    } else {
                        effects.push(round.effects[effects.len() as int])
                    },
                    git,
                    clock,
                );
                &&& round == quiet
                &&& !has_passed(commands[0]) ==> (round.effects[effects.len() as int]
                    matches EffectView::Log { level, .. } && level == "WARN"@)
            }
            &&& commands.len() > 0 && commands[0] is NotStarted ==> round.step is Failed
        }),
{
    let name = managed.selected.config.name;
    let path = managed.repo_path;
    pull_hooks_are_told_of_the_pull(name, path, "after_pull"@, Some(command), s, false);
    if commands.len() > 0 {
        pull_hooks_pass_if_they_succeed(
            name,
            path,
            "after_pull"@,
            command,
            s,
            false,
            commands[0],
        );
    }
}

/// A pull that is complete is notified where the settings ask for it, by name;
/// else the hook after it comes next.
pub proof fn pulls_are_notified(
    managed: ManagedView,
    os: Seq<char>,
    effects: Seq<EffectView>,
    s: SnapshotView,
    git: Seq<GitReplyView>,
    clock: Seq<u32>,
)
    ensures
        ({
            let settings = managed.selected.notification_settings;
            let round = pulled_round(managed, os, effects, s, git, clock, Seq::empty());
            &&& settings.on_pull && settings.command is None && os == "linux"@ ==> (round.step
                matches SyncStepView::Command(run) && run.program == "notify-send"@
                && run.args.len() == 2 && managed.selected.config.name.is_prefix_of(run.args[1]))
            &&& settings.on_pull ==> (settings.command matches Some(command) ==> (round.step
                matches SyncStepView::Command(run) && run.args.len() == 2 && run.args[1] == command
                && run.env.contains(("REPO_AUTO_PULLER_EVENT"@, "pull"@))))
            &&& !settings.on_pull ==> round == after_pull_round(
                managed,
                effects,
                s,
                git,
                clock,
                Seq::empty(),
            )
        }),
{
    let name = managed.selected.config.name;
    let settings = managed.selected.notification_settings;
    let notification = pulled_notification(name);
    notifications_are_shown_where_asked(settings, os, name, managed.repo_path, notification);
    notifications_are_told_in_full(settings, os, name, managed.repo_path, notification);
    reveal_strlit("pull");
    reveal_strlit("failure");
    assert("pull"@.len() == 4 && "failure"@.len() == 7);
    assert(name =~= notification.message.subrange(0, name.len() as int));
}

/// An error that is new is notified where the settings ask for it, with the name
/// and the error, and its hook is told of the error where there is one.
pub proof fn new_errors_are_told_in_full(managed: ManagedView, os: Seq<char>, error: Seq<char>)
    requires
        managed.last_error != Some(error),
    ensures
        ({
            let settings = managed.selected.notification_settings;
            let round = error_round(managed, os, error, Seq::empty());
            &&& settings.on_failure && settings.command is None && os == "linux"@ ==> (round.step
                matches SyncStepView::Command(run) && run.program == "notify-send"@
                && run.args.len() == 2 && managed.selected.config.name.is_prefix_of(run.args[1])
                && error.is_suffix_of(run.args[1]))
            &&& settings.on_failure ==> (settings.command matches Some(command) ==> (round.step
                matches SyncStepView::Command(run) && run.args.len() == 2 && run.args[1] == command
                && run.env.contains(("REPO_AUTO_PULLER_EVENT"@, "failure"@))))
            &&& !settings.on_failure ==> match managed.selected.on_failure_command {
                Some(command) => {
                    round.step matches SyncStepView::Command(run) && run.args.len() == 2
                        && run.args[1] == command && run.env.contains(
                        ("REPO_AUTO_PULLER_ERROR"@, error),
                    ) && run.env.contains(
                        ("REPO_AUTO_PULLER_REPO_NAME"@, managed.selected.config.name),
                    )
                },
                None => round.step is Done,
            }
        }),
{
    let name = managed.selected.config.name;
    let path = managed.repo_path;
    let settings = managed.selected.notification_settings;
    let notification = failure_notification(name, error);
    notifications_are_shown_where_asked(settings, os, name, path, notification);
    notifications_are_told_in_full(settings, os, name, path, notification);
    reveal_strlit("pull");
    reveal_strlit("failure");
    assert("pull"@.len() == 4 && "failure"@.len() == 7);
    let message = notification.message;
    assert(name =~= message.subrange(0, name.len() as int));
    assert(error =~= message.subrange(message.len() - error.len(), message.len() as int));
    if let Some(command) = managed.selected.on_failure_command {
        failure_hooks_are_told_of_the_error(name, path, command, error);
    }
}

/// What is remembered of a repository changes by what was done about messages
/// and errors alone: a message that was logged is the last one, an error that
/// was dealt with is the last one, and none is once a round went well.
pub proof fn memory_follows_what_was_done(managed: ManagedView, effect: EffectView)
    ensures
        ({
            let after = remembered(managed, effect);
            &&& after.selected == managed.selected
            &&& after.repo_path == managed.repo_path
            &&& effect matches EffectView::RememberMessage { message } ==> after.last_message
                == Some(message) && after.last_error == managed.last_error
            &&& effect matches EffectView::RememberError { error } ==> after.last_error == Some(
                error,
            ) && after.last_message == managed.last_message
            &&& effect is ForgetError ==> after.last_error is None && after.last_message
                == managed.last_message
            &&& effect is Log || effect is Record || effect is RecordError ==> after == managed
        }),
{
}

/// A round fails with the words of the first error that comes up while the
/// repository is fetched and probed, and of one that comes up in the pull.
pub proof fn failures_are_told_in_words(
    managed: ManagedView,
    os: Seq<char>,
    dry_run: bool,
    verbose: bool,
    git: Seq<GitReplyView>,
    clock: Seq<u32>,
    commands: Seq<CommandOutcome>,
)
    ensures
        ({
            let step = sync_round(managed, os, dry_run, verbose, git, clock, commands).step;
            &&& git.len() > 0 ==> (git[0] matches Err(error) ==> step == SyncStepView::Failed(
                error.message(),
            ))
            &&& context_step(git) is Done && git.len() > 3 ==> (git[3] matches Err(error) ==> step
                == SyncStepView::Failed(error.message()))
            &&& git.len() == 9 && is_pulling(
                sync_round(managed, os, dry_run, verbose, git.take(8), clock, commands),
            ) ==> (git[8] matches Err(error) ==> step == SyncStepView::Failed(error.message()))
        }),
{
    if git.len() == 9 && is_pulling(
        sync_round(managed, os, dry_run, verbose, git.take(8), clock, commands),
    ) {
        pulls_only_when_safe(managed, os, dry_run, verbose, git.take(8), clock, commands);
        let more = git.skip(8);
        assert(git =~= git.take(8) + more);
        probes_are_steady(true, git.take(8), more);
        lemma_probe_reports(true, git);
        assert(git.skip(8)[0] == git[8]);
        let s = (probe_step(true, git)->Done_0).0;
        pulling_is_free(managed.selected.config, s, clock[0] as nat);
    }
}

} // verus!
