//! A puller for one repository alone, without a configuration.

use crate::config::Seconds;
use crate::repo::{
    context_names_its_upstream, counts_of, decision_of, errand_step, fetch_query, head_query,
    lemma_snapshot_is_steady, level_of, message_of, pull_query, question_step,
    questions_are_about_the_branch, replies_from, replies_view, report_of, resolved,
    snapshot_step, GitReply, GitReplyView, PathProbe, RepoError, RepoErrorView, RepoSyncer, Snapshot,
    SnapshotView, Step, StepView,
};
use crate::schema::{ConfigError, ConfigErrorView};
use crate::settings::{InitError, InitErrorView};
use crate::sync::{pulled_into, pulled_into_text};
use crate::text::{decimal, decimal_text, texts};
use vstd::prelude::*;
use vstd::slice::slice_subrange;

verus! {

/// A line for the log.
#[derive(Debug)]
pub struct LogEntry {
    pub level: &'static str,
    pub message: String,
}

/// What a [`LogEntry`] says.
#[verifier::ext_equal]
pub struct LogEntryView {
    pub level: Seq<char>,
    pub message: Seq<char>,
}

impl View for LogEntry {
    type V = LogEntryView;

    open spec fn view(&self) -> LogEntryView {
        LogEntryView { level: self.level@, message: self.message@ }
    }
}

/// What a list of lines says.
pub open spec fn log_views(list: Seq<LogEntry>) -> Seq<LogEntryView> {
    list.map_values(|entry: LogEntry| entry@)
}

/// What an optional snapshot says.
pub open spec fn option_snapshot(snapshot: Option<Snapshot>) -> Option<SnapshotView> {
    match snapshot {
        Some(snapshot) => Some(snapshot@),
        None => None,
    }
}

/// What a round does next.
#[derive(Debug)]
pub enum RoundStep {
    /// Write the last of its lines to the log, and go on with whether it was
    /// written.
    Write,
    /// Run Git with these arguments, and go on with what it answers.
    Git(Vec<String>),
    /// The round is done.
    Done,
    /// The round has failed.
    Failed(RepoError),
    /// The round has failed: the last of its lines was not written.
    Unwritten,
}

/// What a [`RoundStep`] says.
#[verifier::ext_equal]
pub enum RoundStepView {
    Write,
    Git(Seq<Seq<char>>),
    Done,
    Failed(RepoErrorView),
    Unwritten,
}

impl RoundStepView {
    /// Whether the round is over.
    pub open spec fn ends(self) -> bool {
        self is Done || self is Failed || self is Unwritten
    }
}

impl View for RoundStep {
    type V = RoundStepView;

    open spec fn view(&self) -> RoundStepView {
        match self {
            RoundStep::Write => RoundStepView::Write,
            RoundStep::Git(args) => RoundStepView::Git(texts(args@)),
            RoundStep::Done => RoundStepView::Done,
            RoundStep::Failed(error) => RoundStepView::Failed(error@),
            RoundStep::Unwritten => RoundStepView::Unwritten,
        }
    }
}

/// A round of one puller, as far as it has come: the lines for the log, and
/// what to do next.
#[derive(Debug)]
pub struct Round {
    pub logs: Vec<LogEntry>,
    pub step: RoundStep,
}

/// What a [`Round`] says, and which snapshot its puller remembers.
#[verifier::ext_equal]
pub struct RoundView {
    pub logs: Seq<LogEntryView>,
    pub last_snapshot: Option<SnapshotView>,
    pub step: RoundStepView,
}

/// A line at the level for information.
pub open spec fn info(message: Seq<char>) -> LogEntryView {
    LogEntryView { level: "INFO"@, message }
}

/// What is logged of a snapshot: nothing if it is the last one, unless more is
/// asked for.
pub open spec fn snapshot_logs(
    last: Option<SnapshotView>,
    s: SnapshotView,
    verbose: bool,
) -> Seq<LogEntryView> {
    if last == Some(s) && !verbose {
        Seq::empty()
    } else {
        seq![LogEntryView { level: level_of(decision_of(s)), message: message_of(s) }]
    }
}

/// What becomes of a line, where `written` says of it and of those behind it
/// whether they were written, as far as that is known.
pub open spec fn line_step(written: Seq<bool>) -> RoundStepView {
    if written.len() == 0 {
        RoundStepView::Write
    } else if written[0] {
        RoundStepView::Done
    } else {
        RoundStepView::Unwritten
    }
}

/// A round that has come no further than this.
pub open spec fn unfinished(
    logs: Seq<LogEntryView>,
    last: Option<SnapshotView>,
    step: RoundStepView,
) -> RoundView {
    RoundView { logs, last_snapshot: last, step }
}

/// How a snapshot is logged: it is remembered once what is to be said of it
/// has been written.
pub open spec fn snapshot_round(
    last: Option<SnapshotView>,
    s: SnapshotView,
    verbose: bool,
    written: Seq<bool>,
) -> RoundView {
    let logs = snapshot_logs(last, s, verbose);
    let step = if logs.len() == 0 {
        RoundStepView::Done
    } else {
        line_step(written)
    };
    unfinished(
        logs,
        if step is Done {
            Some(s)
        } else {
            last
        },
        step,
    )
}

/// What is logged if the branches are still apart after a pull.
pub open spec fn apart_log(after: SnapshotView) -> LogEntryView {
    LogEntryView {
        level: "WARN"@,
        message: "post-pull status is still ahead "@ + decimal(after.ahead as nat) + ", behind "@
            + decimal(after.behind as nat),
    }
}

/// How a round ends once a pull is complete: the last commit is logged, and a
/// warning if the branches are still apart.
pub open spec fn pulled_round(
    logs: Seq<LogEntryView>,
    after: SnapshotView,
    head: Seq<char>,
    written: Seq<bool>,
) -> RoundView {
    let done = logs + seq![info("auto-pull complete: "@ + head)];
    if line_step(written) is Done && (after.behind != 0 || after.ahead != 0) {
        unfinished(done + seq![apart_log(after)], Some(after), line_step(written.skip(1)))
    } else {
        unfinished(done, Some(after), line_step(written))
    }
}

/// How a round goes on once a pull has been announced: it is made, the
/// repository is read again, and the last commit is logged.
pub open spec fn pull_round(
    logs: Seq<LogEntryView>,
    s: SnapshotView,
    replies: Seq<GitReplyView>,
    written: Seq<bool>,
) -> RoundView {
    match errand_step(pull_query(s.remote, s.remote_branch), replies) {
        StepView::Git(args) => unfinished(logs, Some(s), RoundStepView::Git(args)),
        StepView::Failed(error) => unfinished(logs, Some(s), RoundStepView::Failed(error)),
        StepView::Done(_) => match snapshot_step(replies.skip(1)) {
            StepView::Git(args) => unfinished(logs, Some(s), RoundStepView::Git(args)),
            StepView::Failed(error) => unfinished(logs, Some(s), RoundStepView::Failed(error)),
            StepView::Done(after) => match question_step(head_query(), replies.skip(5)) {
                StepView::Git(args) => unfinished(logs, Some(after), RoundStepView::Git(args)),
                StepView::Failed(error) => unfinished(
                    logs,
                    Some(after),
                    RoundStepView::Failed(error),
                ),
                StepView::Done(head) => pulled_round(logs, after, head, written),
            },
        },
    }
}

/// How a round goes on once the repository has been fetched and read: it ends
/// unless the branch is behind, has no commits of its own and no changes, and
/// in a dry run the pull is announced alone.
pub open spec fn decided_round(
    logs: Seq<LogEntryView>,
    s: SnapshotView,
    dry_run: bool,
    replies: Seq<GitReplyView>,
    written: Seq<bool>,
) -> RoundView {
    if s.behind == 0 || s.ahead > 0 || s.dirty {
        unfinished(logs, Some(s), RoundStepView::Done)
    } else if dry_run {
        unfinished(
            logs + seq![
                info(
                    "dry-run: "@ + s.branch + " would fast-forward pull "@ + s.remote + "/"@
                        + s.remote_branch,
                ),
            ],
            Some(s),
            line_step(written),
        )
    } else {
        let told = logs + seq![info("pulling "@ + pulled_into(s))];
        if line_step(written) is Done {
            pull_round(told, s, replies, written.skip(1))
        } else {
            unfinished(told, Some(s), line_step(written))
        }
    }
}

/// A round, after the given replies and with what is known of its lines: the
/// repository is read, fetched and read again, and pulled if that is safe.
pub open spec fn round(
    last: Option<SnapshotView>,
    verbose: bool,
    dry_run: bool,
    replies: Seq<GitReplyView>,
    written: Seq<bool>,
) -> RoundView {
    match snapshot_step(replies) {
        StepView::Git(args) => unfinished(Seq::empty(), last, RoundStepView::Git(args)),
        StepView::Failed(error) => unfinished(Seq::empty(), last, RoundStepView::Failed(error)),
        StepView::Done(before) => match errand_step(
            fetch_query(before.remote, before.remote_branch),
            replies.skip(4),
        ) {
            StepView::Git(args) => unfinished(Seq::empty(), last, RoundStepView::Git(args)),
            StepView::Failed(error) => unfinished(
                Seq::empty(),
                last,
                RoundStepView::Failed(error),
            ),
            StepView::Done(_) => match snapshot_step(replies.skip(5)) {
                StepView::Git(args) => unfinished(Seq::empty(), last, RoundStepView::Git(args)),
                StepView::Failed(error) => unfinished(
                    Seq::empty(),
                    last,
                    RoundStepView::Failed(error),
                ),
                StepView::Done(s) => {
                    let told = snapshot_round(last, s, verbose, written);
                    if told.step is Done {
                        decided_round(
                            told.logs,
                            s,
                            dry_run,
                            replies.skip(9),
                            written.skip(told.logs.len() as int),
                        )
                    } else {
                        told
                    }
                },
            },
        },
    }
}

/// Puts a line behind others.
fn add_log(logs: &mut Vec<LogEntry>, level: &'static str, message: String)
    ensures
        log_views(final(logs)@) == log_views(old(logs)@) + seq![
            LogEntryView { level: level@, message: message@ },
        ],
{
    logs.push(LogEntry { level, message });
    assert(log_views(logs@) =~= log_views(old(logs)@) + seq![
        LogEntryView { level: level@, message: message@ },
    ]);
}

/// What becomes of a line.
fn write_line(written: &[bool]) -> (step: RoundStep)
    ensures
        step@ == line_step(written@),
{
    if written.len() == 0 {
        RoundStep::Write
    } else if written[0] {
        RoundStep::Done
    } else {
        RoundStep::Unwritten
    }
}

/// What is known of the lines behind the first ones.
fn written_from(written: &[bool], n: usize) -> (rest: &[bool])
    requires
        n <= written@.len(),
    ensures
        rest@ == written@.skip(n as int),
{
    let rest = slice_subrange(written, n, written.len());
    assert(rest@ =~= written@.skip(n as int));
    rest
}

/// A copy of an optional snapshot.
fn copy_snapshot(snapshot: &Option<Snapshot>) -> (copy: Option<Snapshot>)
    ensures
        option_snapshot(copy) == option_snapshot(*snapshot),
{
    match snapshot {
        Some(snapshot) => Some(snapshot.clone()),
        None => None,
    }
}

/// A puller for one repository.
#[derive(Debug)]
pub struct RepoAutoPuller {
    pub syncer: RepoSyncer,
    pub verbose: bool,
    pub dry_run: bool,
    pub last_snapshot: Option<Snapshot>,
}

impl RepoAutoPuller {
    /// A puller for the repository at a path, by what was found there.
    pub fn new(
        interval: Seconds,
        path: &str,
        probe: &PathProbe,
        verbose: bool,
        dry_run: bool,
    ) -> (puller: Result<Self, InitError>)
        ensures
            match puller {
                Ok(puller) => {
                    &&& !interval.zero_or_less()
                    &&& resolved(path@, *probe) == Ok::<Seq<char>, RepoErrorView>(puller.syncer@)
                    &&& puller.verbose == verbose
                    &&& puller.dry_run == dry_run
                    &&& puller.last_snapshot is None
                },
                Err(error) => if interval.zero_or_less() {
                    error@ == InitErrorView::Config(ConfigErrorView::IntervalNotPositive)
                } else {
                    resolved(path@, *probe) matches Err(cause) && error@ == InitErrorView::Repo(
                        cause,
                    )
                },
            },
    {
        if interval.is_zero_or_less() {
            return Err(InitError::Config(ConfigError::IntervalNotPositive));
        }
        match RepoSyncer::new(path, probe) {
            Ok(syncer) => Ok(RepoAutoPuller { syncer, verbose, dry_run, last_snapshot: None }),
            Err(error) => Err(InitError::Repo(error)),
        }
    }

    /// How a round stands: what it says, and which snapshot is remembered.
    pub open spec fn stand(&self, round: Round) -> RoundView {
        RoundView {
            logs: log_views(round.logs@),
            last_snapshot: option_snapshot(self.last_snapshot),
            step: round.step@,
        }
    }

    /// Whether a puller is the same but for the snapshot that it remembers.
    pub open spec fn same_but_memory(&self, other: Self) -> bool {
        &&& self.syncer == other.syncer
        &&& self.verbose == other.verbose
        &&& self.dry_run == other.dry_run
    }

    /// What is logged of a snapshot, where `written` says whether it was
    /// written, once that is known. The snapshot is remembered if there is
    /// nothing to say of it or what there is was written, and else what was
    /// remembered stays.
    pub fn maybe_log_snapshot(&mut self, snapshot: &Snapshot, written: &[bool]) -> (told: Round)
        ensures
            log_views(told.logs@) == snapshot_logs(
                option_snapshot(old(self).last_snapshot),
                snapshot@,
                old(self).verbose,
            ),
            told.step@ == if told.logs@.len() == 0 {
                RoundStepView::Done
            } else {
                line_step(written@)
            },
            option_snapshot(final(self).last_snapshot) == if told.step is Done {
                Some(snapshot@)
            } else {
                option_snapshot(old(self).last_snapshot)
            },
            final(self).same_but_memory(*old(self)),
    {
        let mut logs: Vec<LogEntry> = Vec::new();
        let same = match &self.last_snapshot {
            Some(last) => last.same_as(snapshot),
            None => false,
        };
        if same && !self.verbose {
            assert(log_views(logs@) =~= Seq::empty());
            return Round { logs, step: RoundStep::Done };
        }
        let (level, message) = RepoSyncer::describe(snapshot);
        add_log(&mut logs, level, message);
        assert(log_views(logs@) =~= snapshot_logs(
            option_snapshot(self.last_snapshot),
            snapshot@,
            self.verbose,
        ));
        let step = write_line(written);
        if let RoundStep::Done = &step {
            self.last_snapshot = Some(snapshot.clone());
        }
        Round { logs, step }
    }

    /// A round once a pull is complete.
    fn report_pull(
        &self,
        logs: Vec<LogEntry>,
        after: &Snapshot,
        head: &str,
        written: &[bool],
    ) -> (round: Round)
        ensures
            unfinished(log_views(round.logs@), Some(after@), round.step@) == pulled_round(
                log_views(logs@),
                after@,
                head@,
                written@,
            ),
    {
        let mut logs = logs;
        add_log(&mut logs, "INFO", "auto-pull complete: ".to_owned().concat(head));
        let step = write_line(written);
        if let RoundStep::Done = &step {
            if after.behind != 0 || after.ahead != 0 {
                add_log(
                    &mut logs,
                    "WARN",
                    "post-pull status is still ahead ".to_owned().concat(
                        decimal_text(after.ahead as u64).as_str(),
                    ).concat(", behind ").concat(decimal_text(after.behind as u64).as_str()),
                );
                return Round { logs, step: write_line(written_from(written, 1)) };
            }
        }
        Round { logs, step }
    }

    /// A round once a pull has been announced.
    fn finish_pull(
        &mut self,
        logs: Vec<LogEntry>,
        snapshot: &Snapshot,
        replies: &[GitReply],
        written: &[bool],
    ) -> (round: Round)
        requires
            option_snapshot(old(self).last_snapshot) == Some(snapshot@),
        ensures
            final(self).stand(round) == pull_round(
                log_views(logs@),
                snapshot@,
                replies_view(replies@),
                written@,
            ),
            final(self).same_but_memory(*old(self)),
    {
        match self.syncer.pull_fast_forward(snapshot, replies) {
            Step::Git(args) => return Round { logs, step: RoundStep::Git(args) },
            Step::Failed(error) => return Round { logs, step: RoundStep::Failed(error) },
            Step::Done(_) => {},
        }
        let after = match self.syncer.read_snapshot(replies_from(replies, 1)) {
            Step::Git(args) => return Round { logs, step: RoundStep::Git(args) },
            Step::Failed(error) => return Round { logs, step: RoundStep::Failed(error) },
            Step::Done(after) => after,
        };
        self.last_snapshot = Some(after.clone());
        match self.syncer.head_summary(replies_from(replies, 5)) {
            Step::Git(args) => Round { logs, step: RoundStep::Git(args) },
            Step::Failed(error) => Round { logs, step: RoundStep::Failed(error) },
            Step::Done(head) => self.report_pull(logs, &after, head.as_str(), written),
        }
    }

    /// A round once the repository has been fetched and read.
    fn decide(
        &mut self,
        logs: Vec<LogEntry>,
        snapshot: &Snapshot,
        replies: &[GitReply],
        written: &[bool],
    ) -> (round: Round)
        requires
            option_snapshot(old(self).last_snapshot) == Some(snapshot@),
        ensures
            final(self).stand(round) == decided_round(
                log_views(logs@),
                snapshot@,
                old(self).dry_run,
                replies_view(replies@),
                written@,
            ),
            final(self).same_but_memory(*old(self)),
    {
        if snapshot.behind == 0 || snapshot.ahead > 0 || snapshot.dirty {
            return Round { logs, step: RoundStep::Done };
        }
        let mut logs = logs;
        if self.dry_run {
            add_log(
                &mut logs,
                "INFO",
                "dry-run: ".to_owned().concat(snapshot.branch.as_str()).concat(
                    " would fast-forward pull ",
                ).concat(snapshot.remote.as_str()).concat("/").concat(
                    snapshot.remote_branch.as_str(),
                ),
            );
            return Round { logs, step: write_line(written) };
        }
        add_log(
            &mut logs,
            "INFO",
            "pulling ".to_owned().concat(pulled_into_text(snapshot).as_str()),
        );
        match write_line(written) {
            RoundStep::Done => self.finish_pull(
                logs,
                snapshot,
                replies,
                written_from(written, 1),
            ),
            step => Round { logs, step },
        }
    }

    /// A round, with what is remembered as far as it has come.
    fn advance(&mut self, replies: &[GitReply], written: &[bool]) -> (stage: Round)
        ensures
            final(self).stand(stage) == round(
                option_snapshot(old(self).last_snapshot),
                old(self).verbose,
                old(self).dry_run,
                replies_view(replies@),
                written@,
            ),
            final(self).same_but_memory(*old(self)),
    {
        let none: Vec<LogEntry> = Vec::new();
        assert(log_views(none@) =~= Seq::empty());
        let before = match self.syncer.read_snapshot(replies) {
            Step::Git(args) => return Round { logs: none, step: RoundStep::Git(args) },
            Step::Failed(error) => return Round { logs: none, step: RoundStep::Failed(error) },
            Step::Done(before) => before,
        };
        match self.syncer.fetch(&before, replies_from(replies, 4)) {
            Step::Git(args) => return Round { logs: none, step: RoundStep::Git(args) },
            Step::Failed(error) => return Round { logs: none, step: RoundStep::Failed(error) },
            Step::Done(_) => {},
        }
        let snapshot = match self.syncer.read_snapshot(replies_from(replies, 5)) {
            Step::Git(args) => return Round { logs: none, step: RoundStep::Git(args) },
            Step::Failed(error) => return Round { logs: none, step: RoundStep::Failed(error) },
            Step::Done(snapshot) => snapshot,
        };
        let told = self.maybe_log_snapshot(&snapshot, written);
        match told.step {
            RoundStep::Done => {
                let rest = written_from(written, told.logs.len());
                self.decide(told.logs, &snapshot, replies_from(replies, 9), rest)
            },
            step => Round { logs: told.logs, step },
        }
    }

    /// A round: its lines by now, and what to do next or the end, after the
    /// replies so far and with what is known of the writing of its lines. What
    /// is remembered changes once the round is over, and not before.
    pub fn sync_once(&mut self, replies: &[GitReply], written: &[bool]) -> (stage: Round)
        ensures
            ({
                let last = option_snapshot(old(self).last_snapshot);
                let now = round(
                    last,
                    old(self).verbose,
                    old(self).dry_run,
                    replies_view(replies@),
                    written@,
                );
                &&& log_views(stage.logs@) == now.logs
                &&& stage.step@ == now.step
                &&& option_snapshot(final(self).last_snapshot) == if now.step.ends() {
                    now.last_snapshot
                } else {
                    last
                }
            }),
            final(self).same_but_memory(*old(self)),
    {
        let last = copy_snapshot(&self.last_snapshot);
        let stage = self.advance(replies, written);
        match &stage.step {
            RoundStep::Write | RoundStep::Git(_) => self.last_snapshot = last,
            RoundStep::Done | RoundStep::Failed(_) | RoundStep::Unwritten => {},
        }
        stage
    }
}

/// A puller pulls exactly where the followed branch has commits that the local
/// one lacks, the local one has none of its own and no uncommitted changes, it
/// is no dry run, and the log has taken the line that says so.
pub proof fn puller_pulls_only_when_safe(
    logs: Seq<LogEntryView>,
    s: SnapshotView,
    dry_run: bool,
    written: Seq<bool>,
)
    ensures
        ({
            let step = decided_round(logs, s, dry_run, Seq::empty(), written).step;
            if s.behind > 0 && s.ahead == 0 && !s.dirty && !dry_run && line_step(written) is Done {
                step == RoundStepView::Git(pull_query(s.remote, s.remote_branch))
            } else {
                !(step is Git)
            }
        }),
{
}

/// A puller says nothing of a repository that has not changed, unless more is
/// asked for.
pub proof fn unchanged_is_not_logged(s: SnapshotView)
    ensures
        snapshot_logs(Some(s), s, false) == Seq::<LogEntryView>::empty(),
        snapshot_logs(Some(s), s, true).len() == 1,
{
}

/// A puller that could not write the first line of a round remembers what it
/// remembered before, and so does one that has not tried yet.
pub proof fn nothing_new_is_remembered_untold(
    last: Option<SnapshotView>,
    verbose: bool,
    dry_run: bool,
    replies: Seq<GitReplyView>,
    written: Seq<bool>,
)
    requires
        !(line_step(written) is Done),
    ensures
        round(last, verbose, dry_run, replies, written).last_snapshot == last,
{
}

/// Once its snapshot is told, a puller remembers one that it has read in this
/// round, whether or not its later lines are written: the one that it decided
/// on, or the one that it read after the pull.
pub proof fn told_snapshots_are_remembered(
    last: Option<SnapshotView>,
    s: SnapshotView,
    verbose: bool,
    dry_run: bool,
    replies: Seq<GitReplyView>,
    written: Seq<bool>,
)
    requires
        snapshot_round(last, s, verbose, written).step is Done,
    ensures
        snapshot_round(last, s, verbose, written).last_snapshot == Some(s),
        ({
            let logs = snapshot_logs(last, s, verbose);
            let rest = written.skip(logs.len() as int);
            decided_round(logs, s, dry_run, replies, rest).last_snapshot == if s.behind > 0
                && s.ahead == 0 && !s.dirty && !dry_run && line_step(rest) is Done
                && replies.len() > 0 && replies[0] is Ok {
                match snapshot_step(replies.skip(1)) {
                    StepView::Done(after) => Some(after),
                    _ => Some(s),
                }
            } else {
                Some(s)
            }
        }),
{
}

/// A round ends: fifteen questions are asked of Git at most, and four lines
/// are written.
pub proof fn rounds_end(
    last: Option<SnapshotView>,
    verbose: bool,
    dry_run: bool,
    replies: Seq<GitReplyView>,
    written: Seq<bool>,
)
    requires
        replies.len() >= 15,
        written.len() >= 4,
    ensures
        round(last, verbose, dry_run, replies, written).step.ends(),
{
}

proof fn lemma_logs(a: Seq<LogEntryView>, b: Seq<LogEntryView>, c: Seq<LogEntryView>)
    ensures
        a.is_prefix_of(a),
        a.is_prefix_of(a + b),
        a.is_prefix_of(a + b + c),
        (a + b).is_prefix_of(a + b),
        (a + b).is_prefix_of(a + b + c),
        (a + b + c).is_prefix_of(a + b + c),
{
    assert(a =~= a.subrange(0, a.len() as int));
    assert(a =~= (a + b).subrange(0, a.len() as int));
    assert(a =~= (a + b + c).subrange(0, a.len() as int));
    assert(a + b =~= (a + b).subrange(0, (a + b).len() as int));
    assert(a + b =~= (a + b + c).subrange(0, (a + b).len() as int));
    assert(a + b + c =~= (a + b + c).subrange(0, (a + b + c).len() as int));
}

proof fn lemma_pulled_round_goes_on(
    logs: Seq<LogEntryView>,
    after: SnapshotView,
    head: Seq<char>,
    written: Seq<bool>,
    later: Seq<bool>,
)
    ensures
        logs.is_prefix_of(pulled_round(logs, after, head, written).logs),
        pulled_round(logs, after, head, written).logs.is_prefix_of(
            pulled_round(logs, after, head, written + later).logs,
        ),
{
    lemma_logs(logs, seq![info("auto-pull complete: "@ + head)], seq![apart_log(after)]);
    if written.len() > 0 {
        assert((written + later)[0] == written[0]);
    }
}

proof fn lemma_pull_round_goes_on(
    logs: Seq<LogEntryView>,
    s: SnapshotView,
    replies: Seq<GitReplyView>,
    more: Seq<GitReplyView>,
    written: Seq<bool>,
    later: Seq<bool>,
)
    ensures
        logs.is_prefix_of(pull_round(logs, s, replies, written).logs),
        pull_round(logs, s, replies, written).logs.is_prefix_of(
            pull_round(logs, s, replies + more, written + later).logs,
        ),
{
    lemma_logs(logs, Seq::empty(), Seq::empty());
    if let StepView::Done(after) = snapshot_step(replies.skip(1)) {
        if let StepView::Done(head) = question_step(head_query(), replies.skip(5)) {
            lemma_pulled_round_goes_on(logs, after, head, written, later);
        }
    }
    if let StepView::Done(after) = snapshot_step((replies + more).skip(1)) {
        if let StepView::Done(head) = question_step(head_query(), (replies + more).skip(5)) {
            lemma_pulled_round_goes_on(logs, after, head, written + later, Seq::empty());
        }
    }
    if replies.len() > 0 && replies[0] is Ok && snapshot_step(replies.skip(1)) is Done {
        assert((replies + more)[0] == replies[0]);
        assert((replies + more).skip(1) =~= replies.skip(1) + more);
        lemma_snapshot_is_steady(replies.skip(1), more);
        if replies.len() > 5 {
            assert((replies + more).skip(5)[0] == replies.skip(5)[0]);
        }
    }
}

proof fn lemma_decided_round_goes_on(
    logs: Seq<LogEntryView>,
    s: SnapshotView,
    dry_run: bool,
    replies: Seq<GitReplyView>,
    more: Seq<GitReplyView>,
    written: Seq<bool>,
    later: Seq<bool>,
)
    ensures
        logs.is_prefix_of(decided_round(logs, s, dry_run, replies, written).logs),
        decided_round(logs, s, dry_run, replies, written).logs.is_prefix_of(
            decided_round(logs, s, dry_run, replies + more, written + later).logs,
        ),
{
    let told = seq![info("pulling "@ + pulled_into(s))];
    lemma_logs(logs, told, Seq::empty());
    lemma_logs(
        logs,
        seq![
            info(
                "dry-run: "@ + s.branch + " would fast-forward pull "@ + s.remote + "/"@
                    + s.remote_branch,
            ),
        ],
        Seq::empty(),
    );
    lemma_pull_round_goes_on(logs + told, s, replies, more, written.skip(1), later);
    lemma_pull_round_goes_on(
        logs + told,
        s,
        replies + more,
        Seq::empty(),
        (written + later).skip(1),
        Seq::empty(),
    );
    if written.len() > 0 {
        assert((written + later)[0] == written[0]);
        assert((written + later).skip(1) =~= written.skip(1) + later);
    }
}

/// What a round has logged stays logged: whatever more Git answers and whatever
/// becomes of its lines, the same ones come first, in the same order.
pub proof fn nothing_logged_is_taken_back(
    last: Option<SnapshotView>,
    verbose: bool,
    dry_run: bool,
    replies: Seq<GitReplyView>,
    more: Seq<GitReplyView>,
    written: Seq<bool>,
    later: Seq<bool>,
)
    ensures
        round(last, verbose, dry_run, replies, written).logs.is_prefix_of(
            round(last, verbose, dry_run, replies + more, written + later).logs,
        ),
{
    let after = round(last, verbose, dry_run, replies + more, written + later);
    lemma_logs(Seq::empty(), after.logs, Seq::empty());
    assert(Seq::<LogEntryView>::empty() + after.logs =~= after.logs);
    if snapshot_step(replies) is Done {
        lemma_snapshot_is_steady(replies, more);
        assert((replies + more).skip(4) =~= replies.skip(4) + more);
        if replies.len() > 4 && replies.skip(4)[0] is Ok {
            assert((replies + more).skip(4)[0] == replies.skip(4)[0]);
            assert((replies + more).skip(5) =~= replies.skip(5) + more);
            if let StepView::Done(s) = snapshot_step(replies.skip(5)) {
                lemma_snapshot_is_steady(replies.skip(5), more);
                assert((replies + more).skip(9) =~= replies.skip(9) + more);
                let logs = snapshot_logs(last, s, verbose);
                let n = logs.len() as int;
                if n <= written.len() {
                    assert((written + later).skip(n) =~= written.skip(n) + later);
                }
                if written.len() > 0 {
                    assert((written + later)[0] == written[0]);
                }
                lemma_logs(logs, Seq::empty(), Seq::empty());
                lemma_decided_round_goes_on(
                    logs,
                    s,
                    dry_run,
                    replies.skip(9),
                    more,
                    written.skip(n),
                    later,
                );
                lemma_decided_round_goes_on(
                    logs,
                    s,
                    dry_run,
                    (replies + more).skip(9),
                    Seq::empty(),
                    (written + later).skip(n),
                    Seq::empty(),
                );
            }
        }
    }
}

proof fn lemma_lines_are_steady(written: Seq<bool>, later: Seq<bool>)
    requires
        !(line_step(written) is Write),
    ensures
        line_step(written + later) == line_step(written),
        (written + later).skip(1) == written.skip(1) + later,
{
    assert((written + later)[0] == written[0]);
    assert((written + later).skip(1) =~= written.skip(1) + later);
}

proof fn lemma_pull_round_is_steady(
    logs: Seq<LogEntryView>,
    s: SnapshotView,
    replies: Seq<GitReplyView>,
    more: Seq<GitReplyView>,
    written: Seq<bool>,
    later: Seq<bool>,
)
    requires
        pull_round(logs, s, replies, written).step.ends(),
    ensures
        pull_round(logs, s, replies + more, written + later) == pull_round(
            logs,
            s,
            replies,
            written,
        ),
{
    assert((replies + more)[0] == replies[0]);
    if replies[0] is Ok {
        assert((replies + more).skip(1) =~= replies.skip(1) + more);
        lemma_snapshot_is_steady(replies.skip(1), more);
        if let StepView::Done(after) = snapshot_step(replies.skip(1)) {
            assert((replies + more).skip(5)[0] == replies.skip(5)[0]);
            if replies.skip(5)[0] is Ok {
                lemma_lines_are_steady(written, later);
                if line_step(written) is Done && (after.behind != 0 || after.ahead != 0) {
                    lemma_lines_are_steady(written.skip(1), later);
                }
            }
        }
    }
}

proof fn lemma_decided_round_is_steady(
    logs: Seq<LogEntryView>,
    s: SnapshotView,
    dry_run: bool,
    replies: Seq<GitReplyView>,
    more: Seq<GitReplyView>,
    written: Seq<bool>,
    later: Seq<bool>,
)
    requires
        decided_round(logs, s, dry_run, replies, written).step.ends(),
    ensures
        decided_round(logs, s, dry_run, replies + more, written + later) == decided_round(
            logs,
            s,
            dry_run,
            replies,
            written,
        ),
{
    if s.behind > 0 && s.ahead == 0 && !s.dirty {
        lemma_lines_are_steady(written, later);
        if !dry_run && line_step(written) is Done {
            lemma_pull_round_is_steady(
                logs + seq![info("pulling "@ + pulled_into(s))],
                s,
                replies,
                more,
                written.skip(1),
                later,
            );
        }
    }
}

/// Once a round is over, nothing that comes later changes how it ended.
pub proof fn finished_rounds_are_steady(
    last: Option<SnapshotView>,
    verbose: bool,
    dry_run: bool,
    replies: Seq<GitReplyView>,
    more: Seq<GitReplyView>,
    written: Seq<bool>,
    later: Seq<bool>,
)
    requires
        round(last, verbose, dry_run, replies, written).step.ends(),
    ensures
        round(last, verbose, dry_run, replies + more, written + later) == round(
            last,
            verbose,
            dry_run,
            replies,
            written,
        ),
{
    lemma_snapshot_is_steady(replies, more);
    if snapshot_step(replies) is Done {
        assert((replies + more).skip(4)[0] == replies.skip(4)[0]);
        if replies.skip(4)[0] is Ok {
            assert((replies + more).skip(5) =~= replies.skip(5) + more);
            lemma_snapshot_is_steady(replies.skip(5), more);
            if let StepView::Done(s) = snapshot_step(replies.skip(5)) {
                let told = snapshot_round(last, s, verbose, written);
                let n = told.logs.len() as int;
                if n > 0 {
                    lemma_lines_are_steady(written, later);
                }
                if told.step is Done {
                    assert((written + later).skip(n) =~= written.skip(n) + later);
                    assert((replies + more).skip(9) =~= replies.skip(9) + more);
                    lemma_decided_round_is_steady(
                        told.logs,
                        s,
                        dry_run,
                        replies.skip(9),
                        more,
                        written.skip(n),
                        later,
                    );
                }
            }
        }
    }
}

/// A puller makes Git pull only where Git said after the fetch that there are no
/// uncommitted changes, no commits of the branch's own, and some that it lacks,
/// and where it is no dry run; it pulls what the branch follows, and only by
/// moving it forward.
pub proof fn single_pulls_are_clean(
    last: Option<SnapshotView>,
    verbose: bool,
    dry_run: bool,
    replies: Seq<GitReplyView>,
    written: Seq<bool>,
)
    requires
        round(last, verbose, dry_run, replies, written).step matches RoundStepView::Git(args)
            && args.len() > 0 && args[0] == "pull"@,
    ensures
        replies.len() >= 9,
        replies[4] is Ok,
        replies[7] matches Ok(status) && status.len() == 0,
        replies[8] matches Ok(text) && (counts_of(text) matches Ok((ahead, behind)) && ahead == 0
            && behind > 0),
        !dry_run,
        round(last, verbose, dry_run, replies, written).step matches RoundStepView::Git(args) && {
            &&& args.len() == 5
            &&& args[1] == "--ff-only"@ && args[2] == "--no-rebase"@
            &&& replies[6] == Ok::<Seq<char>, RepoErrorView>(args[3] + "/"@ + args[4])
        },
{
    let again = replies.skip(5);
    lemma_reading_does_not_pull(replies);
    lemma_reading_does_not_pull(again);
    reveal_strlit("pull");
    reveal_strlit("fetch");
    reveal_strlit("log");
    assert("pull"@.len() == 4 && "fetch"@.len() == 5 && "log"@.len() == 3);
    if let StepView::Done(s) = snapshot_step(again) {
        context_names_its_upstream(again);
        assert(again[1] == replies[6] && again[2] == replies[7] && again[3] == replies[8]);
        lemma_reading_does_not_pull(replies.skip(9).skip(1));
    }
}

proof fn lemma_reading_does_not_pull(replies: Seq<GitReplyView>)
    ensures
        snapshot_step(replies) matches StepView::Git(args) ==> args.len() > 0 && args[0] != "pull"@,
{
    reveal_strlit("pull");
    reveal_strlit("rev-parse");
    reveal_strlit("for-each-ref");
    reveal_strlit("status");
    reveal_strlit("rev-list");
    assert("rev-parse"@.len() == 9);
    assert("for-each-ref"@.len() == 12);
    assert("status"@.len() == 6);
    assert("rev-list"@.len() == 8);
    assert("pull"@.len() == 4);
    questions_are_about_the_branch(replies);
}

/// A snapshot is logged as what it calls for: with the level and the message of
/// the report on it, once, exactly if it is not the one that is remembered or
/// all is to be logged.
pub proof fn changed_snapshots_are_logged(
    last: Option<SnapshotView>,
    s: SnapshotView,
    verbose: bool,
)
    ensures
        ({
            let logs = snapshot_logs(last, s, verbose);
            &&& verbose || last != Some(s) ==> {
                &&& logs.len() == 1
                &&& logs[0].level == report_of(s).level
                &&& logs[0].message == report_of(s).message
            }
            &&& !verbose && last == Some(s) ==> logs.len() == 0
        }),
{
}

/// A round of a puller reads the repository, fetches what its branch follows, and
/// reads it again before anything else.
pub proof fn single_rounds_fetch_first(
    last: Option<SnapshotView>,
    verbose: bool,
    dry_run: bool,
    replies: Seq<GitReplyView>,
    written: Seq<bool>,
)
    requires
        replies.len() < 9,
    ensures
        ({
            let now = round(last, verbose, dry_run, replies, written);
            &&& now.step is Git || now.step is Failed
            &&& now.logs.len() == 0
            &&& now.last_snapshot == last
            &&& replies.len() == 4 ==> (now.step matches RoundStepView::Git(args) ==> {
                &&& args.len() == 4 && args[0] == "fetch"@
                &&& replies[1] == Ok::<Seq<char>, RepoErrorView>(args[2] + "/"@ + args[3])
            })
        }),
{
    context_names_its_upstream(replies);
}

/// A pull is announced before it is made and reported once it is complete, with
/// the last commit, and with a warning that gives both counts if the branches are
/// still apart.
pub proof fn single_pulls_are_reported(
    logs: Seq<LogEntryView>,
    after: SnapshotView,
    head: Seq<char>,
    written: Seq<bool>,
)
    ensures
        ({
            let now = pulled_round(logs, after, head, written);
            let n = logs.len() as int;
            &&& now.logs.len() > n
            &&& now.logs[n].level == "INFO"@
            &&& head.is_suffix_of(now.logs[n].message)
            &&& now.logs.len() == n + 2 <==> written.len() > 0 && written[0] && (after.ahead > 0
                || after.behind > 0)
            &&& now.logs.len() == n + 2 ==> {
                &&& now.logs[n + 1].level == "WARN"@
                &&& ("ahead "@ + decimal(after.ahead as nat) + ", behind "@ + decimal(
                    after.behind as nat,
                )).is_suffix_of(now.logs[n + 1].message)
            }
            &&& now.last_snapshot == Some(after)
        }),
{
    let message = "auto-pull complete: "@ + head;
    assert(head =~= message.subrange(message.len() - head.len(), message.len() as int));
    reveal_strlit("post-pull status is still ahead ");
    reveal_strlit("ahead ");
    let warning = apart_log(after).message;
    let end = "ahead "@ + decimal(after.ahead as nat) + ", behind "@ + decimal(after.behind as nat);
    assert(end =~= warning.subrange(warning.len() - end.len(), warning.len() as int));
}

} // verus!
