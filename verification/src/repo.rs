//! One Git repository: what is read of it, and what to do about it.

use crate::bytes::{debug_quoted, encoding_is_decoded, quote_debug};
use crate::outcome::{printed, printed_text, CommandOutcome};
use crate::text::{
    all_white, count_value, counts_in_decimal_are_read_back, decimal, decimal_text,
    decimals_are_read_back, find_from, holds, is_around, is_digit, join, joined, lemma_holds_end,
    lemma_holds_more, next_word, no_white, parse_count, same_text, split_at_first, split_once,
    split_word, texts, trimming_takes_what_is_blank, white_space, words_stand_between_white_space,
};
use vstd::prelude::*;
use vstd::slice::slice_subrange;
use vstd::utf8::encode_utf8;

verus! {

/// The state of a repository at one moment: its branch, what the branch
/// follows, how far the two have moved apart, and whether there are changes
/// that are not committed.
#[derive(Debug, Eq, PartialEq)]
pub struct Snapshot {
    pub branch: String,
    pub upstream: String,
    pub remote: String,
    pub remote_branch: String,
    pub ahead: u32,
    pub behind: u32,
    pub dirty: bool,
}

/// What a [`Snapshot`] says.
#[verifier::ext_equal]
pub struct SnapshotView {
    pub branch: Seq<char>,
    pub upstream: Seq<char>,
    pub remote: Seq<char>,
    pub remote_branch: Seq<char>,
    pub ahead: u32,
    pub behind: u32,
    pub dirty: bool,
}

impl View for Snapshot {
    type V = SnapshotView;

    open spec fn view(&self) -> SnapshotView {
        SnapshotView {
            branch: self.branch@,
            upstream: self.upstream@,
            remote: self.remote@,
            remote_branch: self.remote_branch@,
            ahead: self.ahead,
            behind: self.behind,
            dirty: self.dirty,
        }
    }
}

impl Clone for Snapshot {
    fn clone(&self) -> (copy: Self)
        ensures
            copy@ == self@,
    {
        Snapshot {
            branch: self.branch.clone(),
            upstream: self.upstream.clone(),
            remote: self.remote.clone(),
            remote_branch: self.remote_branch.clone(),
            ahead: self.ahead,
            behind: self.behind,
            dirty: self.dirty,
        }
    }
}

impl Snapshot {
    /// Whether two snapshots say the same.
    pub fn same_as(&self, other: &Snapshot) -> (same: bool)
        ensures
            same == (self@ == other@),
    {
        self.branch == other.branch && self.upstream == other.upstream && self.remote
            == other.remote && self.remote_branch == other.remote_branch && self.ahead
            == other.ahead && self.behind == other.behind && self.dirty == other.dirty
    }
}

/// What is known of a repository before commits are counted.
#[derive(Debug, Eq, PartialEq)]
pub struct RepoContext {
    pub branch: String,
    pub upstream: String,
    pub remote: String,
    pub remote_branch: String,
    pub dirty: bool,
}

/// What a [`RepoContext`] says.
#[verifier::ext_equal]
pub struct RepoContextView {
    pub branch: Seq<char>,
    pub upstream: Seq<char>,
    pub remote: Seq<char>,
    pub remote_branch: Seq<char>,
    pub dirty: bool,
}

impl View for RepoContext {
    type V = RepoContextView;

    open spec fn view(&self) -> RepoContextView {
        RepoContextView {
            branch: self.branch@,
            upstream: self.upstream@,
            remote: self.remote@,
            remote_branch: self.remote_branch@,
            dirty: self.dirty,
        }
    }
}

impl Clone for RepoContext {
    fn clone(&self) -> (copy: Self)
        ensures
            copy@ == self@,
    {
        RepoContext {
            branch: self.branch.clone(),
            upstream: self.upstream.clone(),
            remote: self.remote.clone(),
            remote_branch: self.remote_branch.clone(),
            dirty: self.dirty,
        }
    }
}

/// How a branch stands to the branch that it follows.
#[derive(Clone, Copy, Debug, Eq, PartialEq, Structural)]
pub enum SyncDecision {
    UpToDate,
    Diverged,
    DirtyBehind,
    AheadOnly,
    PullFastForward,
}

/// A decision, with the level and the message under which it is logged.
#[derive(Debug, Eq, PartialEq)]
pub struct SyncReport {
    pub decision: SyncDecision,
    pub level: &'static str,
    pub message: String,
}

/// What a [`SyncReport`] says.
#[verifier::ext_equal]
pub struct SyncReportView {
    pub decision: SyncDecision,
    pub level: Seq<char>,
    pub message: Seq<char>,
}

impl View for SyncReport {
    type V = SyncReportView;

    open spec fn view(&self) -> SyncReportView {
        SyncReportView {
            decision: self.decision,
            level: self.level@,
            message: self.message@,
        }
    }
}

impl Clone for SyncReport {
    fn clone(&self) -> (copy: Self)
        ensures
            copy@ == self@,
    {
        SyncReport {
            decision: self.decision,
            level: self.level,
            message: self.message.clone(),
        }
    }
}

/// Why a repository could not be read.
#[derive(Debug)]
pub enum RepoError {
    /// The path leads nowhere.
    Unresolved { path: String },
    /// The path does not lead to a Git repository.
    NotARepository { path: String },
    /// No branch is checked out.
    DetachedHead,
    /// The branch follows no other branch.
    NoUpstream { branch: String },
    /// The followed branch is not named after a remote.
    UnexpectedUpstream { upstream: String },
    /// Git did not say how many commits the branch is ahead.
    MissingAhead,
    /// Git did not say how many commits the branch is behind.
    MissingBehind,
    /// What Git said of the commits ahead is not a number.
    InvalidAhead,
    /// What Git said of the commits behind is not a number.
    InvalidBehind,
    /// Git could not be run.
    GitNotStarted { args: Vec<String> },
    /// Git ran and failed.
    GitFailed { args: Vec<String>, stderr: String },
}

/// What a [`RepoError`] says.
#[verifier::ext_equal]
pub enum RepoErrorView {
    Unresolved { path: Seq<char> },
    NotARepository { path: Seq<char> },
    DetachedHead,
    NoUpstream { branch: Seq<char> },
    UnexpectedUpstream { upstream: Seq<char> },
    MissingAhead,
    MissingBehind,
    InvalidAhead,
    InvalidBehind,
    GitNotStarted { args: Seq<Seq<char>> },
    GitFailed { args: Seq<Seq<char>>, stderr: Seq<char> },
}

impl View for RepoError {
    type V = RepoErrorView;

    open spec fn view(&self) -> RepoErrorView {
        match self {
            RepoError::Unresolved { path } => RepoErrorView::Unresolved { path: path@ },
            RepoError::NotARepository { path } => RepoErrorView::NotARepository { path: path@ },
            RepoError::DetachedHead => RepoErrorView::DetachedHead,
            RepoError::NoUpstream { branch } => RepoErrorView::NoUpstream { branch: branch@ },
            RepoError::UnexpectedUpstream { upstream } => RepoErrorView::UnexpectedUpstream {
                upstream: upstream@,
            },
            RepoError::MissingAhead => RepoErrorView::MissingAhead,
            RepoError::MissingBehind => RepoErrorView::MissingBehind,
            RepoError::InvalidAhead => RepoErrorView::InvalidAhead,
            RepoError::InvalidBehind => RepoErrorView::InvalidBehind,
            RepoError::GitNotStarted { args } => RepoErrorView::GitNotStarted {
                args: texts(args@),
            },
            RepoError::GitFailed { args, stderr } => RepoErrorView::GitFailed {
                args: texts(args@),
                stderr: stderr@,
            },
        }
    }
}

impl RepoErrorView {
    /// The words in which an error is reported.
    pub open spec fn message(self) -> Seq<char> {
        match self {
            RepoErrorView::Unresolved { path } => "failed to resolve repo path "@ + path,
            RepoErrorView::NotARepository { path } => path + " is not a Git repository"@,
            RepoErrorView::DetachedHead => "detached HEAD is not supported"@,
            RepoErrorView::NoUpstream { branch } => "branch "@ + debug_quoted(branch)
                + " has no upstream configured"@,
            RepoErrorView::UnexpectedUpstream { upstream } => "unexpected upstream name: "@
                + upstream,
            RepoErrorView::MissingAhead => "missing ahead count"@,
            RepoErrorView::MissingBehind => "missing behind count"@,
            RepoErrorView::InvalidAhead => "failed to parse ahead count"@,
            RepoErrorView::InvalidBehind => "failed to parse behind count"@,
            RepoErrorView::GitNotStarted { args } => "failed to execute git "@ + joined(
                args,
                " "@,
            ),
            RepoErrorView::GitFailed { args, stderr } => "git "@ + joined(args, " "@)
                + " failed: "@ + stderr,
        }
    }
}

/// A copy of a list of strings.
pub(crate) fn copy_list(list: &[String]) -> (copy: Vec<String>)
    ensures
        texts(copy@) == texts(list@),
{
    let mut copy: Vec<String> = Vec::new();
    let mut i: usize = 0;
    while i < list.len()
        invariant
            i <= list.len(),
            copy.len() == i,
            forall|j: int| 0 <= j < i ==> (#[trigger] copy@[j])@ == list@[j]@,
        decreases list.len() - i,
    {
        copy.push(list[i].clone());
        i = i + 1;
    }
    assert(texts(copy@) =~= texts(list@));
    copy
}

impl Clone for RepoError {
    fn clone(&self) -> (copy: Self)
        ensures
            copy@ == self@,
    {
        match self {
            RepoError::Unresolved { path } => RepoError::Unresolved { path: path.clone() },
            RepoError::NotARepository { path } => RepoError::NotARepository { path: path.clone() },
            RepoError::DetachedHead => RepoError::DetachedHead,
            RepoError::NoUpstream { branch } => RepoError::NoUpstream { branch: branch.clone() },
            RepoError::UnexpectedUpstream { upstream } => RepoError::UnexpectedUpstream {
                upstream: upstream.clone(),
            },
            RepoError::MissingAhead => RepoError::MissingAhead,
            RepoError::MissingBehind => RepoError::MissingBehind,
            RepoError::InvalidAhead => RepoError::InvalidAhead,
            RepoError::InvalidBehind => RepoError::InvalidBehind,
            RepoError::GitNotStarted { args } => RepoError::GitNotStarted {
                args: copy_list(args.as_slice()),
            },
            RepoError::GitFailed { args, stderr } => RepoError::GitFailed {
                args: copy_list(args.as_slice()),
                stderr: stderr.clone(),
            },
        }
    }
}

impl RepoError {
    /// The words in which the error is reported.
    pub fn message(&self) -> (message: String)
        ensures
            message@ == self@.message(),
    {
        match self {
            RepoError::Unresolved { path } => "failed to resolve repo path ".to_owned().concat(
                path.as_str(),
            ),
            RepoError::NotARepository { path } => path.clone().concat(
                " is not a Git repository",
            ),
            RepoError::DetachedHead => "detached HEAD is not supported".to_owned(),
            RepoError::NoUpstream { branch } => "branch ".to_owned().concat(
                quote_debug(branch.as_str()).as_str(),
            ).concat(" has no upstream configured"),
            RepoError::UnexpectedUpstream { upstream } => "unexpected upstream name: ".to_owned(
            ).concat(upstream.as_str()),
            RepoError::MissingAhead => "missing ahead count".to_owned(),
            RepoError::MissingBehind => "missing behind count".to_owned(),
            RepoError::InvalidAhead => "failed to parse ahead count".to_owned(),
            RepoError::InvalidBehind => "failed to parse behind count".to_owned(),
            RepoError::GitNotStarted { args } => "failed to execute git ".to_owned().concat(
                join(args.as_slice(), " ").as_str(),
            ),
            RepoError::GitFailed { args, stderr } => "git ".to_owned().concat(
                join(args.as_slice(), " ").as_str(),
            ).concat(" failed: ").concat(stderr.as_str()),
        }
    }
}

/// What to do next in order to read something of a repository.
#[derive(Debug)]
pub enum Step<T> {
    /// Run Git with these arguments, and go on with what it answers.
    Git(Vec<String>),
    /// The reading is done.
    Done(T),
    /// The reading has failed.
    Failed(RepoError),
}

/// What a [`Step`] says.
#[verifier::ext_equal]
pub enum StepView<V> {
    Git(Seq<Seq<char>>),
    Done(V),
    Failed(RepoErrorView),
}

impl<T: View> View for Step<T> {
    type V = StepView<T::V>;

    open spec fn view(&self) -> StepView<T::V> {
        match self {
            Step::Git(args) => StepView::Git(texts(args@)),
            Step::Done(value) => StepView::Done(value@),
            Step::Failed(error) => StepView::Failed(error@),
        }
    }
}

/// What Git answered: what it printed, or why there is no answer.
pub type GitReply = Result<String, RepoError>;

/// What a [`GitReply`] says.
pub type GitReplyView = Result<Seq<char>, RepoErrorView>;

/// What a reply says.
pub open spec fn reply_view(reply: GitReply) -> GitReplyView {
    match reply {
        Ok(text) => Ok(text@),
        Err(error) => Err(error@),
    }
}

/// What a list of replies says.
pub open spec fn replies_view(replies: Seq<GitReply>) -> Seq<GitReplyView> {
    replies.map_values(|reply: GitReply| reply_view(reply))
}

/// The arguments that ask Git for the branch that is checked out.
pub open spec fn branch_query() -> Seq<Seq<char>> {
    seq!["rev-parse"@, "--abbrev-ref"@, "HEAD"@]
}

/// The arguments that ask Git for what a branch follows.
pub open spec fn upstream_query(branch: Seq<char>) -> Seq<Seq<char>> {
    seq!["for-each-ref"@, "--format=%(upstream:short)"@, "refs/heads/"@ + branch]
}

/// The arguments that ask Git for changes that are not committed.
pub open spec fn status_query() -> Seq<Seq<char>> {
    seq!["status"@, "--porcelain"@]
}

/// The arguments that ask Git how far the branch and the one that it follows
/// have moved apart.
pub open spec fn counts_query(upstream: Seq<char>) -> Seq<Seq<char>> {
    seq!["rev-list"@, "--left-right"@, "--count"@, "HEAD..."@ + upstream]
}

/// The arguments that make Git fetch a branch of a remote.
pub open spec fn fetch_query(remote: Seq<char>, remote_branch: Seq<char>) -> Seq<Seq<char>> {
    seq!["fetch"@, "--quiet"@, remote, remote_branch]
}

/// The arguments that make Git pull a branch of a remote, and only if that
/// moves the local branch forward.
pub open spec fn pull_query(remote: Seq<char>, remote_branch: Seq<char>) -> Seq<Seq<char>> {
    seq!["pull"@, "--ff-only"@, "--no-rebase"@, remote, remote_branch]
}

/// The arguments that ask Git for the last commit in one line.
pub open spec fn head_query() -> Seq<Seq<char>> {
    seq!["log"@, "-1"@, "--oneline"@, "--decorate=short"@, "HEAD"@]
}

/// How the context of a repository is read, after the given replies: three
/// questions, each asked when the one before is answered well.
pub open spec fn context_step(replies: Seq<GitReplyView>) -> StepView<RepoContextView> {
    if replies.len() == 0 {
        StepView::Git(branch_query())
    } else {
        match replies[0] {
            Err(error) => StepView::Failed(error),
            Ok(branch) => if branch == "HEAD"@ {
                StepView::Failed(RepoErrorView::DetachedHead)
            } else if replies.len() == 1 {
                StepView::Git(upstream_query(branch))
            } else {
                match replies[1] {
                    Err(error) => StepView::Failed(error),
                    Ok(upstream) => upstream_step(branch, upstream, replies),
                }
            },
        }
    }
}

/// How the context of a repository is read once its branch and what the
/// branch follows are known.
pub open spec fn upstream_step(
    branch: Seq<char>,
    upstream: Seq<char>,
    replies: Seq<GitReplyView>,
) -> StepView<RepoContextView> {
    if upstream.len() == 0 {
        StepView::Failed(RepoErrorView::NoUpstream { branch })
    } else {
        match split_once(upstream, '/') {
            None => StepView::Failed(RepoErrorView::UnexpectedUpstream { upstream }),
            Some((remote, remote_branch)) => if replies.len() == 2 {
                StepView::Git(status_query())
            } else {
                match replies[2] {
                    Err(error) => StepView::Failed(error),
                    Ok(status) => StepView::Done(
                        RepoContextView {
                            branch,
                            upstream,
                            remote,
                            remote_branch,
                            dirty: status.len() > 0,
                        },
                    ),
                }
            },
        }
    }
}

/// The two counts in what Git answers to [`counts_query`]: the first two
/// words, each of them a number.
pub open spec fn counts_of(text: Seq<char>) -> Result<(nat, nat), RepoErrorView> {
    match next_word(text) {
        None => Err(RepoErrorView::MissingAhead),
        Some((first, rest)) => match count_value(first) {
            None => Err(RepoErrorView::InvalidAhead),
            Some(ahead) => match next_word(rest) {
                None => Err(RepoErrorView::MissingBehind),
                Some((second, _)) => match count_value(second) {
                    None => Err(RepoErrorView::InvalidBehind),
                    Some(behind) => Ok((ahead, behind)),
                },
            },
        },
    }
}

/// The snapshot of a context and two counts.
pub open spec fn snapshot_of(context: RepoContextView, ahead: u32, behind: u32) -> SnapshotView {
    SnapshotView {
        branch: context.branch,
        upstream: context.upstream,
        remote: context.remote,
        remote_branch: context.remote_branch,
        ahead,
        behind,
        dirty: context.dirty,
    }
}

/// How a snapshot is read, after the given replies: the context first, and
/// one question more for the counts.
pub open spec fn snapshot_step(replies: Seq<GitReplyView>) -> StepView<SnapshotView> {
    match context_step(replies) {
        StepView::Git(args) => StepView::Git(args),
        StepView::Failed(error) => StepView::Failed(error),
        StepView::Done(context) => if replies.len() == 3 {
            StepView::Git(counts_query(context.upstream))
        } else {
            match replies[3] {
                Err(error) => StepView::Failed(error),
                Ok(text) => match counts_of(text) {
                    Err(error) => StepView::Failed(error),
                    Ok((ahead, behind)) => StepView::Done(
                        snapshot_of(context, ahead as u32, behind as u32),
                    ),
                },
            }
        },
    }
}

/// How a branch stands to the one that it follows, by the numbers of commits
/// that only one of the two has, and by whether there are uncommitted changes.
pub open spec fn decision_of(s: SnapshotView) -> SyncDecision {
    if s.ahead == 0 && s.behind == 0 {
        SyncDecision::UpToDate
    } else if s.ahead > 0 && s.behind > 0 {
        SyncDecision::Diverged
    } else if s.ahead > 0 {
        SyncDecision::AheadOnly
    } else if s.dirty {
        SyncDecision::DirtyBehind
    } else {
        SyncDecision::PullFastForward
    }
}

/// The level under which a decision is logged.
pub open spec fn level_of(decision: SyncDecision) -> Seq<char> {
    match decision {
        SyncDecision::UpToDate => "IDLE"@,
        SyncDecision::PullFastForward => "INFO"@,
        _ => "WARN"@,
    }
}

/// The message under which the state of a repository is logged.
pub open spec fn message_of(s: SnapshotView) -> Seq<char> {
    let ahead = decimal(s.ahead as nat);
    let behind = decimal(s.behind as nat);
    match decision_of(s) {
        SyncDecision::UpToDate => s.branch + " is up to date with "@ + s.upstream,
        SyncDecision::Diverged => s.branch + " diverged from "@ + s.upstream + " (ahead "@ + ahead
            + ", behind "@ + behind + "); skipping auto-pull"@,
        SyncDecision::DirtyBehind => s.branch + " is behind "@ + s.upstream + " by "@ + behind
            + " commit(s), but the working tree is dirty; skipping auto-pull"@,
        SyncDecision::AheadOnly => s.branch + " is ahead of "@ + s.upstream + " by "@ + ahead
            + " commit(s); skipping auto-pull"@,
        SyncDecision::PullFastForward => s.branch + " is behind "@ + s.upstream + " by "@ + behind
            + " commit(s)"@,
    }
}

/// The report on the state of a repository.
pub open spec fn report_of(s: SnapshotView) -> SyncReportView {
    SyncReportView {
        decision: decision_of(s),
        level: level_of(decision_of(s)),
        message: message_of(s),
    }
}

/// The name of a decision.
pub open spec fn decision_name(decision: SyncDecision) -> Seq<char> {
    match decision {
        SyncDecision::UpToDate => "up-to-date"@,
        SyncDecision::Diverged => "diverged"@,
        SyncDecision::DirtyBehind => "dirty-behind"@,
        SyncDecision::AheadOnly => "ahead-only"@,
        SyncDecision::PullFastForward => "pull-fast-forward"@,
    }
}

/// What was found at a path.
#[derive(Debug)]
pub enum PathProbe {
    /// The path leads nowhere.
    Unresolved,
    /// The path leads to `canonical`, in which there is an entry named
    /// `.git` or not.
    Resolved { canonical: String, has_git: bool },
}

/// The directory of the repository at a path, by what was found there.
pub open spec fn resolved(path: Seq<char>, probe: PathProbe) -> Result<Seq<char>, RepoErrorView> {
    match probe {
        PathProbe::Unresolved => Err(RepoErrorView::Unresolved { path }),
        PathProbe::Resolved { canonical, has_git } => if has_git {
            Ok(canonical@)
        } else {
            Err(RepoErrorView::NotARepository { path: canonical@ })
        },
    }
}

/// The directory of the repository at a path, by what was found there.
pub fn resolve_repo(path: &str, probe: &PathProbe) -> (repo: Result<String, RepoError>)
    ensures
        match repo {
            Ok(repo) => resolved(path@, *probe) == Ok::<Seq<char>, RepoErrorView>(repo@),
            Err(error) => resolved(path@, *probe) == Err::<Seq<char>, RepoErrorView>(error@),
        },
{
    match probe {
        PathProbe::Unresolved => Err(RepoError::Unresolved { path: path.to_owned() }),
        PathProbe::Resolved { canonical, has_git } => if *has_git {
            Ok(canonical.clone())
        } else {
            Err(RepoError::NotARepository { path: canonical.clone() })
        },
    }
}

/// A repository that is kept up to date.
#[derive(Debug)]
pub struct RepoSyncer {
    repo: String,
}

impl View for RepoSyncer {
    type V = Seq<char>;

    /// The directory of the repository.
    closed spec fn view(&self) -> Seq<char> {
        self.repo@
    }
}

impl RepoSyncer {
    /// The repository at a path, by what was found there.
    pub fn new(path: &str, probe: &PathProbe) -> (syncer: Result<Self, RepoError>)
        ensures
            match syncer {
                Ok(syncer) => resolved(path@, *probe) == Ok::<Seq<char>, RepoErrorView>(syncer@),
                Err(error) => resolved(path@, *probe) == Err::<Seq<char>, RepoErrorView>(error@),
            },
    {
        match resolve_repo(path, probe) {
            Ok(repo) => Ok(RepoSyncer { repo }),
            Err(error) => Err(error),
        }
    }

    /// The directory of the repository.
    pub fn repo_path(&self) -> (path: &str)
        ensures
            path@ == self@,
    {
        self.repo.as_str()
    }

    /// The arguments with which Git is run in this repository.
    pub fn git_arguments(&self, args: &[String]) -> (all: Vec<String>)
        ensures
            texts(all@) == seq!["-C"@, self@] + texts(args@),
    {
        let mut all: Vec<String> = Vec::new();
        all.push("-C".to_owned());
        all.push(self.repo.clone());
        let mut rest = copy_list(args);
        let ghost tail = rest@;
        let ghost head = all@;
        all.append(&mut rest);
        assert(texts(all@) =~= texts(head) + texts(tail));
        assert(texts(head) =~= seq!["-C"@, self@]);
        all
    }

    /// What Git answered, by what came of running it: what it printed, or an
    /// error if it did not run or did not succeed.
    pub fn run_git(&self, args: &[String], outcome: &CommandOutcome) -> (reply: GitReply)
        ensures
            reply_view(reply) == git_reply(texts(args@), *outcome),
    {
        match outcome {
            CommandOutcome::NotStarted { .. } => Err(
                RepoError::GitNotStarted { args: copy_list(args) },
            ),
            CommandOutcome::Exited { success, stdout, stderr, .. } => if *success {
                Ok(printed_text(stdout.as_slice()))
            } else {
                Err(
                    RepoError::GitFailed {
                        args: copy_list(args),
                        stderr: printed_text(stderr.as_slice()),
                    },
                )
            },
        }
    }

    /// Reads what is to be known before commits are counted: the next
    /// question for Git, or the result, after the replies so far.
    pub fn read_context(&self, replies: &[GitReply]) -> (step: Step<RepoContext>)
        ensures
            step@ == context_step(replies_view(replies@)),
    {
        if replies.len() == 0 {
            let args = vec!["rev-parse".to_owned(), "--abbrev-ref".to_owned(), "HEAD".to_owned()];
            assert(texts(args@) =~= branch_query());
            return Step::Git(args);
        }
        let branch = match &replies[0] {
            Ok(branch) => branch,
            Err(error) => return Step::Failed(error.clone()),
        };
        assert(replies_view(replies@)[0] == reply_view(replies@[0]));
        if same_text(branch.as_str(), "HEAD") {
            return Step::Failed(RepoError::DetachedHead);
        }
        if replies.len() == 1 {
            let args = vec![
                "for-each-ref".to_owned(),
                "--format=%(upstream:short)".to_owned(),
                "refs/heads/".to_owned().concat(branch.as_str()),
            ];
            assert(texts(args@) =~= upstream_query(branch@));
            return Step::Git(args);
        }
        assert(replies_view(replies@)[1] == reply_view(replies@[1]));
        let upstream = match &replies[1] {
            Ok(upstream) => upstream,
            Err(error) => return Step::Failed(error.clone()),
        };
        if upstream.as_str().is_empty() {
            return Step::Failed(RepoError::NoUpstream { branch: branch.clone() });
        }
        let (remote, remote_branch) = match split_at_first(upstream.as_str(), '/') {
            Some(parts) => parts,
            None => return Step::Failed(
                RepoError::UnexpectedUpstream { upstream: upstream.clone() },
            ),
        };
        if replies.len() == 2 {
            let args = vec!["status".to_owned(), "--porcelain".to_owned()];
            assert(texts(args@) =~= status_query());
            return Step::Git(args);
        }
        assert(replies_view(replies@)[2] == reply_view(replies@[2]));
        match &replies[2] {
            Ok(status) => Step::Done(
                RepoContext {
                    branch: branch.clone(),
                    upstream: upstream.clone(),
                    remote,
                    remote_branch,
                    dirty: !status.as_str().is_empty(),
                },
            ),
            Err(error) => Step::Failed(error.clone()),
        }
    }
}

/// One thing that Git is told to do: done once Git has done it.
pub open spec fn errand_step(
    args: Seq<Seq<char>>,
    replies: Seq<GitReplyView>,
) -> StepView<()> {
    if replies.len() == 0 {
        StepView::Git(args)
    } else {
        match replies[0] {
            Ok(_) => StepView::Done(()),
            Err(error) => StepView::Failed(error),
        }
    }
}

/// One question to Git, whose answer is the result.
pub open spec fn question_step(
    args: Seq<Seq<char>>,
    replies: Seq<GitReplyView>,
) -> StepView<Seq<char>> {
    if replies.len() == 0 {
        StepView::Git(args)
    } else {
        match replies[0] {
            Ok(text) => StepView::Done(text),
            Err(error) => StepView::Failed(error),
        }
    }
}

/// How a repository is probed, after the given replies: its context is read,
/// the branch is fetched if `fetch_remote` says so, and a snapshot is read and
/// reported on.
pub open spec fn probe_step(
    fetch_remote: bool,
    replies: Seq<GitReplyView>,
) -> StepView<(SnapshotView, SyncReportView)> {
    match context_step(replies) {
        StepView::Git(args) => StepView::Git(args),
        StepView::Failed(error) => StepView::Failed(error),
        StepView::Done(context) => if fetch_remote {
            match errand_step(
                fetch_query(context.remote, context.remote_branch),
                replies.skip(3),
            ) {
                StepView::Git(args) => StepView::Git(args),
                StepView::Failed(error) => StepView::Failed(error),
                StepView::Done(_) => reported_step(replies.skip(4)),
            }
        } else {
            reported_step(replies.skip(3))
        },
    }
}

/// How a snapshot is read and reported on, after the given replies.
pub open spec fn reported_step(
    replies: Seq<GitReplyView>,
) -> StepView<(SnapshotView, SyncReportView)> {
    match snapshot_step(replies) {
        StepView::Git(args) => StepView::Git(args),
        StepView::Failed(error) => StepView::Failed(error),
        StepView::Done(snapshot) => StepView::Done((snapshot, report_of(snapshot))),
    }
}

/// The replies from the `n`th on.
pub(crate) fn replies_from(replies: &[GitReply], n: usize) -> (rest: &[GitReply])
    requires
        n <= replies@.len(),
    ensures
        replies_view(rest@) == replies_view(replies@).skip(n as int),
{
    let rest = slice_subrange(replies, n, replies.len());
    assert(replies_view(rest@) =~= replies_view(replies@).skip(n as int));
    rest
}

/// What became of one thing that Git was told to do.
fn errand(args: Vec<String>, replies: &[GitReply]) -> (step: Step<()>)
    ensures
        step@ == errand_step(texts(args@), replies_view(replies@)),
{
    if replies.len() == 0 {
        return Step::Git(args);
    }
    assert(replies_view(replies@)[0] == reply_view(replies@[0]));
    match &replies[0] {
        Ok(_) => Step::Done(()),
        Err(error) => Step::Failed(error.clone()),
    }
}

/// The two counts in what Git answers, ahead and behind.
pub fn parse_counts(text: &str) -> (counts: Result<(u32, u32), RepoError>)
    ensures
        match counts {
            Ok((ahead, behind)) => counts_of(text@) == Ok::<(nat, nat), RepoErrorView>(
                (ahead as nat, behind as nat),
            ),
            Err(error) => counts_of(text@) == Err::<(nat, nat), RepoErrorView>(error@),
        },
{
    let (first, rest) = match split_word(text) {
        Some(parts) => parts,
        None => return Err(RepoError::MissingAhead),
    };
    let ahead: u32 = match parse_count(first.as_str()) {
        Some(count) => count,
        None => return Err(RepoError::InvalidAhead),
    };
    let (second, _) = match split_word(rest.as_str()) {
        Some(parts) => parts,
        None => return Err(RepoError::MissingBehind),
    };
    match parse_count(second.as_str()) {
        Some(behind) => Ok((ahead, behind)),
        None => Err(RepoError::InvalidBehind),
    }
}

impl RepoSyncer {
    /// Reads a snapshot: the next question for Git, or the result, after the
    /// replies so far.
    pub fn read_snapshot(&self, replies: &[GitReply]) -> (step: Step<Snapshot>)
        ensures
            step@ == snapshot_step(replies_view(replies@)),
    {
        let context = match self.read_context(replies) {
            Step::Git(args) => return Step::Git(args),
            Step::Failed(error) => return Step::Failed(error),
            Step::Done(context) => context,
        };
        if replies.len() == 3 {
            let args = vec![
                "rev-list".to_owned(),
                "--left-right".to_owned(),
                "--count".to_owned(),
                "HEAD...".to_owned().concat(context.upstream.as_str()),
            ];
            assert(texts(args@) =~= counts_query(context.upstream@));
            return Step::Git(args);
        }
        assert(replies_view(replies@)[3] == reply_view(replies@[3]));
        let text = match &replies[3] {
            Ok(text) => text,
            Err(error) => return Step::Failed(error.clone()),
        };
        match parse_counts(text.as_str()) {
            Ok((ahead, behind)) => Step::Done(
                Snapshot {
                    branch: context.branch,
                    upstream: context.upstream,
                    remote: context.remote,
                    remote_branch: context.remote_branch,
                    ahead,
                    behind,
                    dirty: context.dirty,
                },
            ),
            Err(error) => Step::Failed(error),
        }
    }

    /// Fetches a branch of a remote.
    pub fn fetch_ref(&self, remote: &str, remote_branch: &str, replies: &[GitReply]) -> (step: Step<
        (),
    >)
        ensures
            step@ == errand_step(fetch_query(remote@, remote_branch@), replies_view(replies@)),
    {
        let args = vec![
            "fetch".to_owned(),
            "--quiet".to_owned(),
            remote.to_owned(),
            remote_branch.to_owned(),
        ];
        assert(texts(args@) =~= fetch_query(remote@, remote_branch@));
        errand(args, replies)
    }

    /// Fetches what the branch of a snapshot follows.
    pub fn fetch(&self, snapshot: &Snapshot, replies: &[GitReply]) -> (step: Step<()>)
        ensures
            step@ == errand_step(
                fetch_query(snapshot@.remote, snapshot@.remote_branch),
                replies_view(replies@),
            ),
    {
        self.fetch_ref(snapshot.remote.as_str(), snapshot.remote_branch.as_str(), replies)
    }

    /// Pulls what the branch of a snapshot follows, by fast-forward alone.
    pub fn pull_fast_forward(&self, snapshot: &Snapshot, replies: &[GitReply]) -> (step: Step<()>)
        ensures
            step@ == errand_step(
                pull_query(snapshot@.remote, snapshot@.remote_branch),
                replies_view(replies@),
            ),
    {
        let args = vec![
            "pull".to_owned(),
            "--ff-only".to_owned(),
            "--no-rebase".to_owned(),
            snapshot.remote.clone(),
            snapshot.remote_branch.clone(),
        ];
        assert(texts(args@) =~= pull_query(snapshot@.remote, snapshot@.remote_branch));
        errand(args, replies)
    }

    /// Reads the last commit in one line.
    pub fn head_summary(&self, replies: &[GitReply]) -> (step: Step<String>)
        ensures
            step@ == question_step(head_query(), replies_view(replies@)),
    {
        if replies.len() == 0 {
            let args = vec![
                "log".to_owned(),
                "-1".to_owned(),
                "--oneline".to_owned(),
                "--decorate=short".to_owned(),
                "HEAD".to_owned(),
            ];
            assert(texts(args@) =~= head_query());
            return Step::Git(args);
        }
        assert(replies_view(replies@)[0] == reply_view(replies@[0]));
        match &replies[0] {
            Ok(text) => Step::Done(text.clone()),
            Err(error) => Step::Failed(error.clone()),
        }
    }

    /// How the branch of a snapshot stands to the one that it follows.
    pub fn sync_decision(snapshot: &Snapshot) -> (decision: SyncDecision)
        ensures
            decision == decision_of(snapshot@),
    {
        if snapshot.behind == 0 && snapshot.ahead == 0 {
            return SyncDecision::UpToDate;
        }
        if snapshot.behind > 0 && snapshot.ahead > 0 {
            return SyncDecision::Diverged;
        }
        if snapshot.dirty && snapshot.behind > 0 {
            return SyncDecision::DirtyBehind;
        }
        if snapshot.ahead > 0 {
            return SyncDecision::AheadOnly;
        }
        SyncDecision::PullFastForward
    }

    /// The decision on a snapshot, with its level and its message.
    pub fn report(snapshot: &Snapshot) -> (report: SyncReport)
        ensures
            report@ == report_of(snapshot@),
    {
        let decision = Self::sync_decision(snapshot);
        let ahead = decimal_text(snapshot.ahead as u64);
        let behind = decimal_text(snapshot.behind as u64);
        let mut message = snapshot.branch.clone();
        let level: &'static str;
        match decision {
            SyncDecision::UpToDate => {
                level = "IDLE";
                message.append(" is up to date with ");
                message.append(snapshot.upstream.as_str());
            },
            SyncDecision::Diverged => {
                level = "WARN";
                message.append(" diverged from ");
                message.append(snapshot.upstream.as_str());
                message.append(" (ahead ");
                message.append(ahead.as_str());
                message.append(", behind ");
                message.append(behind.as_str());
                message.append("); skipping auto-pull");
            },
            SyncDecision::DirtyBehind => {
                level = "WARN";
                message.append(" is behind ");
                message.append(snapshot.upstream.as_str());
                message.append(" by ");
                message.append(behind.as_str());
                message.append(" commit(s), but the working tree is dirty; skipping auto-pull");
            },
            SyncDecision::AheadOnly => {
                level = "WARN";
                message.append(" is ahead of ");
                message.append(snapshot.upstream.as_str());
                message.append(" by ");
                message.append(ahead.as_str());
                message.append(" commit(s); skipping auto-pull");
            },
            SyncDecision::PullFastForward => {
                level = "INFO";
                message.append(" is behind ");
                message.append(snapshot.upstream.as_str());
                message.append(" by ");
                message.append(behind.as_str());
                message.append(" commit(s)");
            },
        }
        SyncReport { decision, level, message }
    }

    /// The level and the message under which a snapshot is logged.
    pub fn describe(snapshot: &Snapshot) -> (description: (&'static str, String))
        ensures
            description.0@ == level_of(decision_of(snapshot@)),
            description.1@ == message_of(snapshot@),
    {
        let report = Self::report(snapshot);
        (report.level, report.message)
    }
}

impl SyncDecision {
    /// The name of the decision.
    pub fn as_str(&self) -> (name: &'static str)
        ensures
            name@ == decision_name(*self),
    {
        match self {
            SyncDecision::UpToDate => "up-to-date",
            SyncDecision::Diverged => "diverged",
            SyncDecision::DirtyBehind => "dirty-behind",
            SyncDecision::AheadOnly => "ahead-only",
            SyncDecision::PullFastForward => "pull-fast-forward",
        }
    }
}

/// Probes a repository: the next question for Git, or the snapshot and the
/// report on it, after the replies so far.
pub fn probe_repository(syncer: &RepoSyncer, fetch_remote: bool, replies: &[GitReply]) -> (step:
    Step<(Snapshot, SyncReport)>)
    ensures
        step@ == probe_step(fetch_remote, replies_view(replies@)),
{
    let context = match syncer.read_context(replies) {
        Step::Git(args) => return Step::Git(args),
        Step::Failed(error) => return Step::Failed(error),
        Step::Done(context) => context,
    };
    let mut used: usize = 3;
    if fetch_remote {
        match syncer.fetch_ref(
            context.remote.as_str(),
            context.remote_branch.as_str(),
            replies_from(replies, 3),
        ) {
            Step::Git(args) => return Step::Git(args),
            Step::Failed(error) => return Step::Failed(error),
            Step::Done(_) => {},
        }
        used = 4;
    }
    match syncer.read_snapshot(replies_from(replies, used)) {
        Step::Git(args) => Step::Git(args),
        Step::Failed(error) => Step::Failed(error),
        Step::Done(snapshot) => {
            let report = RepoSyncer::report(&snapshot);
            Step::Done((snapshot, report))
        },
    }
}

/// What Git answered, by what came of running it.
pub open spec fn git_reply(args: Seq<Seq<char>>, outcome: CommandOutcome) -> GitReplyView {
    match outcome {
        CommandOutcome::NotStarted { .. } => Err(RepoErrorView::GitNotStarted { args }),
        CommandOutcome::Exited { success, stdout, stderr, .. } => if success {
            Ok(printed(stdout@))
        } else {
            Err(RepoErrorView::GitFailed { args, stderr: printed(stderr@) })
        },
    }
}

/// A branch is pulled exactly if it lacks commits of the one that it follows,
/// has none of its own, and there are no uncommitted changes; it is up to date
/// exactly if neither has commits that the other lacks.
pub proof fn decisions_are_conservative(s: SnapshotView)
    ensures
        decision_of(s) == SyncDecision::PullFastForward <==> s.behind > 0 && s.ahead == 0
            && !s.dirty,
        decision_of(s) == SyncDecision::UpToDate <==> s.behind == 0 && s.ahead == 0,
        decision_of(s) == SyncDecision::Diverged <==> s.behind > 0 && s.ahead > 0,
        decision_of(s) == SyncDecision::AheadOnly <==> s.behind == 0 && s.ahead > 0,
        decision_of(s) == SyncDecision::DirtyBehind <==> s.behind > 0 && s.ahead == 0 && s.dirty,
{
}

proof fn lemma_found(s: Seq<char>, c: char, from: int)
    requires
        0 <= from,
    ensures
        find_from(s, c, from) matches Some(i) ==> from <= i < s.len() && s[i] == c && forall|
            j: int,
        |
            from <= j < i ==> s[j] != c,
    decreases s.len() - from,
{
    if from < s.len() && s[from] != c {
        lemma_found(s, c, from + 1);
    }
}

/// A context names a branch, and the remote and the branch of the remote that
/// make up what the branch follows.
pub proof fn context_names_its_upstream(replies: Seq<GitReplyView>)
    ensures
        context_step(replies) matches StepView::Done(context) ==> {
            &&& context.branch != "HEAD"@
            &&& context.upstream == context.remote + "/"@ + context.remote_branch
            &&& !context.remote.contains('/')
        },
{
    if let StepView::Done(context) = context_step(replies) {
        reveal_strlit("/");
        lemma_found(context.upstream, '/', 0);
        let i = find_from(context.upstream, '/', 0)->0;
        assert(context.upstream =~= context.upstream.take(i) + "/"@ + context.upstream.skip(i + 1));
    }
}

/// A probe ends: eight questions are asked of Git at most.
pub proof fn probes_end(fetch_remote: bool, replies: Seq<GitReplyView>)
    requires
        replies.len() >= 8,
    ensures
        !(probe_step(fetch_remote, replies) is Git),
{
}

/// A probe never pulls, and does not fetch unless it was asked to.
pub proof fn probes_only_read(fetch_remote: bool, replies: Seq<GitReplyView>)
    ensures
        probe_step(fetch_remote, replies) matches StepView::Git(args) ==> {
            &&& args.len() > 0
            &&& args[0] != "pull"@
            &&& !fetch_remote ==> args[0] != "fetch"@
        },
{
    reveal_strlit("pull");
    reveal_strlit("fetch");
    reveal_strlit("rev-parse");
    reveal_strlit("for-each-ref");
    reveal_strlit("status");
    reveal_strlit("rev-list");
    assert("rev-parse"@.len() == 9);
    assert("for-each-ref"@.len() == 12);
    assert("status"@.len() == 6);
    assert("rev-list"@.len() == 8);
    assert("fetch"@.len() == 5);
    assert("pull"@.len() == 4);
}

proof fn lemma_context_is_steady(replies: Seq<GitReplyView>, more: Seq<GitReplyView>)
    requires
        !(context_step(replies) is Git),
    ensures
        context_step(replies + more) == context_step(replies),
{
}

pub(crate) proof fn lemma_snapshot_is_steady(replies: Seq<GitReplyView>, more: Seq<GitReplyView>)
    requires
        !(snapshot_step(replies) is Git),
    ensures
        snapshot_step(replies + more) == snapshot_step(replies),
{
    lemma_context_is_steady(replies, more);
}

/// Once a probe is over, more replies do not change what it found.
pub proof fn probes_are_steady(
    fetch_remote: bool,
    replies: Seq<GitReplyView>,
    more: Seq<GitReplyView>,
)
    requires
        !(probe_step(fetch_remote, replies) is Git),
    ensures
        probe_step(fetch_remote, replies + more) == probe_step(fetch_remote, replies),
{
    lemma_context_is_steady(replies, more);
    if context_step(replies) is Done {
        if fetch_remote {
            assert((replies + more).skip(3) =~= replies.skip(3) + more);
            assert(replies.skip(3).len() > 0);
            if replies.skip(3)[0] is Ok {
                assert((replies + more).skip(4) =~= replies.skip(4) + more);
                lemma_snapshot_is_steady(replies.skip(4), more);
            }
        } else {
            assert((replies + more).skip(3) =~= replies.skip(3) + more);
            lemma_snapshot_is_steady(replies.skip(3), more);
        }
    }
}

/// A context says what Git said: the first answer is the branch, the second is
/// what the branch follows, and there are uncommitted changes exactly if the
/// third is not empty, whatever it holds.
pub proof fn contexts_say_what_git_said(replies: Seq<GitReplyView>)
    ensures
        context_step(replies) matches StepView::Done(context) ==> {
            &&& replies.len() >= 3
            &&& replies[0] == Ok::<Seq<char>, RepoErrorView>(context.branch)
            &&& replies[1] == Ok::<Seq<char>, RepoErrorView>(context.upstream)
            &&& replies[2] matches Ok(status) && (context.dirty <==> status.len() > 0)
        },
{
}

/// A context is read exactly where Git names a branch, the branch follows one
/// that is named after a remote, and Git answers the question for changes; the
/// first of these that fails is what is reported.
pub proof fn contexts_fail_for_a_reason(replies: Seq<GitReplyView>)
    requires
        replies.len() >= 3,
    ensures
        match replies[0] {
            Err(error) => context_step(replies) == StepView::<RepoContextView>::Failed(error),
            Ok(branch) => if branch == "HEAD"@ {
                context_step(replies) == StepView::<RepoContextView>::Failed(
                    RepoErrorView::DetachedHead,
                )
            } else {
                match replies[1] {
                    Err(error) => context_step(replies) == StepView::<RepoContextView>::Failed(
                        error,
                    ),
                    Ok(upstream) => if upstream.len() == 0 {
                        context_step(replies) == StepView::<RepoContextView>::Failed(
                            RepoErrorView::NoUpstream { branch },
                        )
                    } else if !upstream.contains('/') {
                        context_step(replies) == StepView::<RepoContextView>::Failed(
                            RepoErrorView::UnexpectedUpstream { upstream },
                        )
                    } else {
                        match replies[2] {
                            Err(error) => context_step(replies)
                                == StepView::<RepoContextView>::Failed(error),
                            Ok(_) => context_step(replies) is Done,
                        }
                    },
                }
            },
        },
{
    if let Ok(upstream) = replies[1] {
        if upstream.contains('/') {
            let i = choose|i: int| 0 <= i < upstream.len() && upstream[i] == '/';
            lemma_slash_is_found(upstream, '/', 0, i);
        } else {
            lemma_found(upstream, '/', 0);
            if let Some(i) = find_from(upstream, '/', 0) {
                assert(upstream.contains(upstream[i]));
            }
        }
    }
}

proof fn lemma_slash_is_found(s: Seq<char>, c: char, from: int, i: int)
    requires
        0 <= from <= i < s.len(),
        s[i] == c,
    ensures
        find_from(s, c, from) is Some,
    decreases i - from,
{
    if s[from] != c {
        lemma_slash_is_found(s, c, from + 1, i);
    }
}

/// Git is asked for the branch first, for what that branch follows second, for
/// changes third, and for the commits between the two fourth.
pub proof fn questions_are_about_the_branch(replies: Seq<GitReplyView>)
    ensures
        snapshot_step(replies) matches StepView::Git(args) ==> {
            if replies.len() == 0 {
                &&& args.len() == 3
                &&& args[0] == "rev-parse"@ && args[1] == "--abbrev-ref"@ && args[2] == "HEAD"@
            } else if replies.len() == 1 {
                &&& args.len() == 3 && args[0] == "for-each-ref"@
                &&& args[1] == "--format=%(upstream:short)"@
                &&& replies[0] matches Ok(branch) && args[2] == "refs/heads/"@ + branch
            } else if replies.len() == 2 {
                args.len() == 2 && args[0] == "status"@ && args[1] == "--porcelain"@
            } else {
                &&& replies.len() == 3
                &&& args.len() == 4 && args[0] == "rev-list"@
                &&& args[1] == "--left-right"@ && args[2] == "--count"@
                &&& replies[1] matches Ok(upstream) && args[3] == "HEAD..."@ + upstream
            }
        },
{
}

/// Two counts in decimal with white space between them are read back in their
/// order: the first is that of the commits ahead, the second of those behind.
pub proof fn counts_are_read_in_order(
    ahead: nat,
    behind: nat,
    before: Seq<char>,
    between: Seq<char>,
    after: Seq<char>,
)
    requires
        ahead <= 0xffff_ffff,
        behind <= 0xffff_ffff,
        all_white(before),
        all_white(between),
        between.len() > 0,
        after.len() > 0 ==> white_space(after[0]),
    ensures
        counts_of(before + decimal(ahead) + (between + decimal(behind) + after)) == Ok::<
            (nat, nat),
            RepoErrorView,
        >((ahead, behind)),
{
    decimals_are_read_back(ahead);
    decimals_are_read_back(behind);
    counts_in_decimal_are_read_back(ahead);
    counts_in_decimal_are_read_back(behind);
    let first = decimal(ahead);
    let second = decimal(behind);
    assert forall|i: int| 0 <= i < first.len() implies !white_space(#[trigger] first[i]) by {
        assert(is_digit(first[i]));
    }
    assert forall|i: int| 0 <= i < second.len() implies !white_space(#[trigger] second[i]) by {
        assert(is_digit(second[i]));
    }
    let rest = between + second + after;
    assert(rest[0] == between[0]);
    assert(white_space(between[0]));
    words_stand_between_white_space(before, first, rest);
    words_stand_between_white_space(between, second, after);
}

/// Counts are missing where there are too few words, and are not read where a
/// word is no count.
pub proof fn counts_have_two_words(
    before: Seq<char>,
    first: Seq<char>,
    between: Seq<char>,
    second: Seq<char>,
)
    requires
        all_white(before),
        all_white(between),
        no_white(first),
        no_white(second),
        first.len() > 0,
        between.len() > 0,
        second.len() > 0,
    ensures
        counts_of(before) == Err::<(nat, nat), RepoErrorView>(RepoErrorView::MissingAhead),
        count_value(first) is None ==> counts_of(before + first + between) == Err::<
            (nat, nat),
            RepoErrorView,
        >(RepoErrorView::InvalidAhead),
        count_value(first) is Some ==> counts_of(before + first + between) == Err::<
            (nat, nat),
            RepoErrorView,
        >(RepoErrorView::MissingBehind),
        count_value(first) is Some && count_value(second) is None ==> counts_of(
            before + first + (between + second),
        ) == Err::<(nat, nat), RepoErrorView>(RepoErrorView::InvalidBehind),
{
    let none = Seq::<char>::empty();
    assert(white_space(between[0]));
    words_stand_between_white_space(before, none, none);
    assert(before + none + none =~= before);
    words_stand_between_white_space(before, first, between);
    words_stand_between_white_space(between, none, none);
    assert(between + none + none =~= between);
    assert((between + second)[0] == between[0]);
    words_stand_between_white_space(before, first, between + second);
    words_stand_between_white_space(between, second, none);
    assert(between + second + none =~= between + second);
}

/// A snapshot says what Git said: the branch, what it follows, whether there are
/// changes, and the two counts of the fourth answer in their order.
pub proof fn snapshots_say_what_git_said(replies: Seq<GitReplyView>, ahead: nat, behind: nat)
    requires
        ahead <= 0xffff_ffff,
        behind <= 0xffff_ffff,
        replies.len() >= 4,
        replies[3] == Ok::<Seq<char>, RepoErrorView>(decimal(ahead) + "\t"@ + decimal(behind)),
    ensures
        context_step(replies) is Done <==> snapshot_step(replies) is Done,
        snapshot_step(replies) matches StepView::Done(s) ==> {
            &&& replies[0] == Ok::<Seq<char>, RepoErrorView>(s.branch)
            &&& replies[1] == Ok::<Seq<char>, RepoErrorView>(s.upstream)
            &&& s.upstream == s.remote + "/"@ + s.remote_branch
            &&& !s.remote.contains('/')
            &&& replies[2] matches Ok(status) && (s.dirty <==> status.len() > 0)
            &&& s.ahead == ahead
            &&& s.behind == behind
        },
{
    reveal_strlit("\t");
    let none = Seq::<char>::empty();
    let text = decimal(ahead) + "\t"@ + decimal(behind);
    counts_are_read_in_order(ahead, behind, none, "\t"@, none);
    assert(none + decimal(ahead) + ("\t"@ + decimal(behind) + none) =~= text);
    context_names_its_upstream(replies);
}

/// A probe that fetches asks for that after the context is read, of the remote
/// and the branch that are followed, and does not go on unless it succeeded.
pub proof fn probes_fetch_what_is_followed(replies: Seq<GitReplyView>)
    requires
        context_step(replies) is Done,
    ensures
        replies.len() == 3 ==> (probe_step(true, replies) matches StepView::Git(args) && {
            &&& args.len() == 4 && args[0] == "fetch"@ && args[1] == "--quiet"@
            &&& replies[1] == Ok::<Seq<char>, RepoErrorView>(args[2] + "/"@ + args[3])
        }),
        replies.len() > 3 ==> (replies[3] matches Err(error) ==> probe_step(true, replies)
            == StepView::<(SnapshotView, SyncReportView)>::Failed(error)),
        probe_step(true, replies) is Done ==> replies.len() >= 8 && replies[3] is Ok,
{
    context_names_its_upstream(replies);
}

/// What a probe finds is what Git said last: after the fetch if there was one.
pub proof fn probes_find_what_was_read_last(fetch_remote: bool, replies: Seq<GitReplyView>)
    ensures
        probe_step(fetch_remote, replies) matches StepView::Done((s, report)) ==> {
            let n: int = if fetch_remote {
                4
            } else {
                3
            };
            &&& replies.len() >= n + 4
            &&& replies[n] == Ok::<Seq<char>, RepoErrorView>(s.branch)
            &&& replies[n + 1] == Ok::<Seq<char>, RepoErrorView>(s.upstream)
            &&& s.upstream == s.remote + "/"@ + s.remote_branch
            &&& replies[n + 2] matches Ok(status) && (s.dirty <==> status.len() > 0)
            &&& replies[n + 3] matches Ok(counts) && counts_of(counts) == Ok::<
                (nat, nat),
                RepoErrorView,
            >((s.ahead as nat, s.behind as nat))
        },
{
    let n: int = if fetch_remote {
        4
    } else {
        3
    };
    let rest = replies.skip(n);
    context_names_its_upstream(rest);
    if let StepView::Done(found) = probe_step(fetch_remote, replies) {
        assert(rest[0] == replies[n] && rest[1] == replies[n + 1]);
        assert(rest[2] == replies[n + 2] && rest[3] == replies[n + 3]);
        let text = rest[3]->Ok_0;
        lemma_counts_fit(text);
    }
}

proof fn lemma_counts_fit(text: Seq<char>)
    ensures
        counts_of(text) matches Ok((ahead, behind)) ==> ahead <= u32::MAX && behind <= u32::MAX,
{
}

/// A report is idle exactly where neither branch has commits that the other
/// lacks, informs exactly where there is something to pull and nothing against
/// it, and warns everywhere else.
pub proof fn reports_are_as_loud_as_needed(s: SnapshotView)
    ensures
        report_of(s).level == "IDLE"@ <==> s.ahead == 0 && s.behind == 0,
        report_of(s).level == "INFO"@ <==> s.ahead == 0 && s.behind > 0 && !s.dirty,
        report_of(s).level == "WARN"@ <==> s.ahead > 0 || s.behind > 0 && s.dirty,
{
    reveal_strlit("IDLE");
    reveal_strlit("INFO");
    reveal_strlit("WARN");
    assert("IDLE"@[1] == 'D' && "INFO"@[1] == 'N' && "WARN"@[1] == 'A');
}

/// A message starts with the branch, names what it follows, and gives the number
/// of commits that it lacks and of those that it has of its own, each as such; it
/// says that nothing is pulled exactly where it warns.
pub proof fn messages_say_how_far(s: SnapshotView)
    ensures
        s.branch.is_prefix_of(message_of(s)),
        holds(message_of(s), s.upstream),
        s.behind > 0 && s.ahead == 0 ==> holds(
            message_of(s),
            " is behind "@ + s.upstream + " by "@ + decimal(s.behind as nat) + " commit(s)"@,
        ),
        s.behind == 0 && s.ahead > 0 ==> holds(
            message_of(s),
            " is ahead of "@ + s.upstream + " by "@ + decimal(s.ahead as nat) + " commit(s)"@,
        ),
        s.behind > 0 && s.ahead > 0 ==> holds(
            message_of(s),
            "ahead "@ + decimal(s.ahead as nat) + ", behind "@ + decimal(s.behind as nat),
        ),
        s.ahead > 0 || s.behind > 0 && s.dirty ==> "skipping auto-pull"@.is_suffix_of(
            message_of(s),
        ),
{
    let ahead = decimal(s.ahead as nat);
    let behind = decimal(s.behind as nat);
    let m = message_of(s);
    let none = Seq::<char>::empty();
    reveal_strlit("skipping auto-pull");
    assert(s.branch =~= m.subrange(0, s.branch.len() as int));
    if s.ahead == 0 && s.behind == 0 {
        lemma_holds_end(s.branch + " is up to date with "@, s.upstream);
    } else if s.ahead > 0 && s.behind > 0 {
        reveal_strlit(" (ahead ");
        reveal_strlit("ahead ");
        reveal_strlit("); skipping auto-pull");
        lemma_holds_end(s.branch + " diverged from "@, s.upstream);
        lemma_holds_more(
            s.branch + " diverged from "@ + s.upstream,
            s.upstream,
            " (ahead "@ + ahead + ", behind "@ + behind + "); skipping auto-pull"@,
        );
        assert(m =~= s.branch + " diverged from "@ + s.upstream + (" (ahead "@ + ahead
            + ", behind "@ + behind + "); skipping auto-pull"@));
        let part = "ahead "@ + ahead + ", behind "@ + behind;
        let front = s.branch + " diverged from "@ + s.upstream + " (ahead "@.take(2);
        assert(" (ahead "@ =~= " (ahead "@.take(2) + "ahead "@);
        assert(m =~= front + part + "); skipping auto-pull"@);
        assert(is_around(m, front, part, "); skipping auto-pull"@));
        assert("skipping auto-pull"@ =~= m.subrange(m.len() - 18, m.len() as int));
    } else if s.ahead > 0 {
        reveal_strlit(" commit(s); skipping auto-pull");
        reveal_strlit(" commit(s)");
        let part = " is ahead of "@ + s.upstream + " by "@ + ahead + " commit(s)"@;
        let tail = " commit(s); skipping auto-pull"@.skip(10);
        assert(" commit(s); skipping auto-pull"@ =~= " commit(s)"@ + tail);
        assert(m =~= s.branch + part + tail);
        assert(is_around(m, s.branch, part, tail));
        let rest = " by "@ + ahead + " commit(s)"@ + tail;
        assert(m =~= (s.branch + " is ahead of "@) + s.upstream + rest);
        assert(is_around(m, s.branch + " is ahead of "@, s.upstream, rest));
        assert("skipping auto-pull"@ =~= m.subrange(m.len() - 18, m.len() as int));
    } else {
        reveal_strlit(" commit(s)");
        reveal_strlit(" commit(s), but the working tree is dirty; skipping auto-pull");
        let end = " commit(s), but the working tree is dirty; skipping auto-pull"@;
        let tail = if s.dirty {
            end.skip(10)
        } else {
            none
        };
        assert(end =~= " commit(s)"@ + end.skip(10));
        let part = " is behind "@ + s.upstream + " by "@ + behind + " commit(s)"@;
        assert(m =~= s.branch + part + tail);
        assert(is_around(m, s.branch, part, tail));
        let rest = " by "@ + behind + " commit(s)"@ + tail;
        assert(m =~= (s.branch + " is behind "@) + s.upstream + rest);
        assert(is_around(m, s.branch + " is behind "@, s.upstream, rest));
        if s.dirty {
            assert("skipping auto-pull"@ =~= m.subrange(m.len() - 18, m.len() as int));
        }
    }
}

/// No two decisions have the same name.
pub proof fn decisions_are_told_apart(a: SyncDecision, b: SyncDecision)
    requires
        decision_name(a) == decision_name(b),
    ensures
        a == b,
{
    reveal_strlit("up-to-date");
    reveal_strlit("diverged");
    reveal_strlit("dirty-behind");
    reveal_strlit("ahead-only");
    reveal_strlit("pull-fast-forward");
    assert("up-to-date"@.len() == 10 && "ahead-only"@.len() == 10);
    assert("up-to-date"@[0] == 'u' && "ahead-only"@[0] == 'a');
    assert("diverged"@.len() == 8 && "dirty-behind"@.len() == 12);
    assert("pull-fast-forward"@.len() == 17);
}

/// A repository is found exactly at a path that leads somewhere with an entry
/// for Git in it, and is where the path leads.
pub proof fn repositories_are_where_paths_lead(path: Seq<char>, probe: PathProbe)
    ensures
        resolved(path, probe) matches Ok(repo) ==> {
            probe matches PathProbe::Resolved { canonical, has_git } && has_git && repo
                == canonical@
        },
        probe is Unresolved ==> resolved(path, probe) == Err::<Seq<char>, RepoErrorView>(
            RepoErrorView::Unresolved { path },
        ),
        probe matches PathProbe::Resolved { canonical, has_git } ==> (!has_git ==> resolved(
            path,
            probe,
        ) == Err::<Seq<char>, RepoErrorView>(
            RepoErrorView::NotARepository { path: canonical@ },
        )) && (has_git ==> resolved(path, probe) is Ok),
{
}

/// Git has an answer exactly if it ran and succeeded: what it printed to its
/// output, without the white space around it.
pub proof fn answers_are_what_git_printed(
    args: Seq<Seq<char>>,
    outcome: CommandOutcome,
    before: Seq<char>,
    text: Seq<char>,
    after: Seq<char>,
)
    requires
        all_white(before),
        all_white(after),
        text.len() > 0 ==> !white_space(text[0]) && !white_space(text.last()),
    ensures
        git_reply(args, outcome) is Ok <==> (outcome matches CommandOutcome::Exited {
            success,
            ..
        } && success),
        outcome matches CommandOutcome::Exited { success, stdout, stderr, .. } ==> {
            &&& success && stdout@ == encode_utf8(before + text + after) ==> git_reply(
                args,
                outcome,
            ) == Ok::<Seq<char>, RepoErrorView>(text)
            &&& !success && stderr@ == encode_utf8(before + text + after) ==> git_reply(
                args,
                outcome,
            ) == Err::<Seq<char>, RepoErrorView>(RepoErrorView::GitFailed { args, stderr: text })
        },
        outcome is NotStarted ==> git_reply(args, outcome) == Err::<Seq<char>, RepoErrorView>(
            RepoErrorView::GitNotStarted { args },
        ),
{
    encoding_is_decoded(before + text + after);
    trimming_takes_what_is_blank(before, text, after);
}

/// Git is told to pull nothing but the branch of the remote, and only by moving
/// the local branch forward.
pub proof fn pulls_only_move_forward(remote: Seq<char>, remote_branch: Seq<char>)
    ensures
        ({
            let args = pull_query(remote, remote_branch);
            &&& args.len() == 5
            &&& args[0] == "pull"@
            &&& args.contains("--ff-only"@)
            &&& args.contains("--no-rebase"@)
            &&& args[3] == remote
            &&& args[4] == remote_branch
        }),
{
    let args = pull_query(remote, remote_branch);
    assert(args[1] == "--ff-only"@);
    assert(args[2] == "--no-rebase"@);
}

/// An error says what it is about.
pub proof fn errors_name_what_they_are_about(
    path: Seq<char>,
    branch: Seq<char>,
    args: Seq<Seq<char>>,
    stderr: Seq<char>,
)
    ensures
        path.is_suffix_of(RepoErrorView::Unresolved { path }.message()),
        path.is_prefix_of(RepoErrorView::NotARepository { path }.message()),
        holds(RepoErrorView::NoUpstream { branch }.message(), debug_quoted(branch)),
        branch.is_suffix_of(RepoErrorView::UnexpectedUpstream { upstream: branch }.message()),
        joined(args, " "@).is_suffix_of(RepoErrorView::GitNotStarted { args }.message()),
        holds(RepoErrorView::GitFailed { args, stderr }.message(), joined(args, " "@)),
        stderr.is_suffix_of(RepoErrorView::GitFailed { args, stderr }.message()),
        RepoErrorView::MissingAhead.message() != RepoErrorView::MissingBehind.message(),
        RepoErrorView::InvalidAhead.message() != RepoErrorView::InvalidBehind.message(),
{
    let all = joined(args, " "@);
    let a = RepoErrorView::Unresolved { path }.message();
    assert(path =~= a.subrange(a.len() - path.len(), a.len() as int));
    let b = RepoErrorView::NotARepository { path }.message();
    assert(path =~= b.subrange(0, path.len() as int));
    assert(is_around(
        RepoErrorView::NoUpstream { branch }.message(),
        "branch "@,
        debug_quoted(branch),
        " has no upstream configured"@,
    ));
    let c = RepoErrorView::UnexpectedUpstream { upstream: branch }.message();
    assert(branch =~= c.subrange(c.len() - branch.len(), c.len() as int));
    let d = RepoErrorView::GitNotStarted { args }.message();
    assert(all =~= d.subrange(d.len() - all.len(), d.len() as int));
    let e = RepoErrorView::GitFailed { args, stderr }.message();
    assert(e =~= "git "@ + all + (" failed: "@ + stderr));
    assert(is_around(e, "git "@, all, " failed: "@ + stderr));
    assert(stderr =~= e.subrange(e.len() - stderr.len(), e.len() as int));
    reveal_strlit("missing ahead count");
    reveal_strlit("missing behind count");
    reveal_strlit("failed to parse ahead count");
    reveal_strlit("failed to parse behind count");
    assert("missing ahead count"@.len() == 19 && "missing behind count"@.len() == 20);
    assert("failed to parse ahead count"@.len() == 27);
    assert("failed to parse behind count"@.len() == 28);
}

/// What Git is told or asked ends with the first reply: nothing is said to it
/// after that, what it answers is the result, and why it fails is why this fails.
pub proof fn tasks_end_with_the_first_reply(args: Seq<Seq<char>>, replies: Seq<GitReplyView>)
    ensures
        replies.len() == 0 ==> errand_step(args, replies) == StepView::<()>::Git(args)
            && question_step(args, replies) == StepView::<Seq<char>>::Git(args),
        replies.len() > 0 ==> match replies.first() {
            Ok(text) => errand_step(args, replies) is Done && question_step(args, replies)
                == StepView::Done(text),
            Err(error) => errand_step(args, replies) == StepView::<()>::Failed(error)
                && question_step(args, replies) == StepView::<Seq<char>>::Failed(error),
        },
{
}

} // verus!
