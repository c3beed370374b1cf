//! What the configuration makes of a decision.

use crate::config::{QuietHoursView, RepositoryConfig, RepositoryView};
use crate::quiet::{clock_time, in_quiet_hours, quiet_hours_hold_to_the_second, quiet_window};
use crate::repo::{
    decision_name, messages_say_how_far, report_of, Snapshot, SnapshotView, SyncDecision,
    SyncReport, SyncReportView,
};
use crate::text::{holds, is_around, join, joined, list_has};
use vstd::prelude::*;

verus! {

/// A decision after the configuration has been heard.
#[derive(Debug)]
pub struct EffectiveReport {
    pub decision: String,
    pub message: String,
    pub level: &'static str,
    pub blocks_auto_pull: bool,
}

/// What an [`EffectiveReport`] says.
#[verifier::ext_equal]
pub struct EffectiveView {
    pub decision: Seq<char>,
    pub message: Seq<char>,
    pub level: Seq<char>,
    pub blocks_auto_pull: bool,
}

impl View for EffectiveReport {
    type V = EffectiveView;

    open spec fn view(&self) -> EffectiveView {
        EffectiveView {
            decision: self.decision@,
            message: self.message@,
            level: self.level@,
            blocks_auto_pull: self.blocks_auto_pull,
        }
    }
}

impl Clone for EffectiveReport {
    fn clone(&self) -> (copy: Self)
        ensures
            copy@ == self@,
    {
        EffectiveReport {
            decision: self.decision.clone(),
            message: self.message.clone(),
            level: self.level,
            blocks_auto_pull: self.blocks_auto_pull,
        }
    }
}

/// Whether a repository may be pulled on a branch: every branch is allowed
/// where none is named.
pub open spec fn allows_branch(repo: RepositoryView, branch: Seq<char>) -> bool {
    repo.allowed_branches.len() == 0 || repo.allowed_branches.contains(branch)
}

/// Whether a repository may be pulled on a branch.
pub fn branch_allowed(config: &RepositoryConfig, branch: &str) -> (allowed: bool)
    ensures
        allowed == allows_branch(config@, branch@),
{
    config.allowed_branches.len() == 0 || list_has(config.allowed_branches.as_slice(), branch)
}

/// Whether a decision stands against pulling: there are commits or changes
/// that a pull could not keep.
pub open spec fn blocks(decision: SyncDecision) -> bool {
    match decision {
        SyncDecision::Diverged | SyncDecision::DirtyBehind | SyncDecision::AheadOnly => true,
        SyncDecision::UpToDate | SyncDecision::PullFastForward => false,
    }
}

/// Whether a decision stands against pulling.
pub fn decision_blocks_auto_pull(decision: &SyncDecision) -> (blocked: bool)
    ensures
        blocked == blocks(*decision),
{
    match decision {
        SyncDecision::Diverged => true,
        SyncDecision::DirtyBehind => true,
        SyncDecision::AheadOnly => true,
        SyncDecision::UpToDate => false,
        SyncDecision::PullFastForward => false,
    }
}

/// A report that stands against pulling, whatever Git says.
pub open spec fn refusal(decision: Seq<char>, message: Seq<char>) -> EffectiveView {
    EffectiveView { decision, message, level: "WARN"@, blocks_auto_pull: true }
}

/// What the configuration makes of a report, at a time in seconds from
/// midnight: a pause comes first, quiet hours second, the branch third, and
/// the report itself last.
pub open spec fn effective_of(
    repo: RepositoryView,
    snapshot: SnapshotView,
    report: SyncReportView,
    now: nat,
) -> EffectiveView {
    if repo.paused {
        refusal("paused"@, repo.name + " is paused in config; skipping auto-pull"@)
    } else if let Ok(Some(window)) = quiet_window(repo.quiet_hours, now) {
        refusal(
            "quiet-hours"@,
            repo.name + " is inside quiet_hours "@ + window + "; skipping auto-pull"@,
        )
    } else if !allows_branch(repo, snapshot.branch) {
        refusal(
            "branch-not-allowed"@,
            snapshot.branch + " is not in allowed_branches ["@ + joined(
                repo.allowed_branches,
                ", "@,
            ) + "]; skipping auto-pull"@,
        )
    } else {
        EffectiveView {
            decision: decision_name(report.decision),
            message: report.message,
            level: report.level,
            blocks_auto_pull: blocks(report.decision),
        }
    }
}

/// What the configuration makes of a report; `now` is in seconds from
/// midnight.
pub fn effective_report(
    config: &RepositoryConfig,
    snapshot: &Snapshot,
    report: &SyncReport,
    now: u32,
) -> (effective: EffectiveReport)
    ensures
        effective@ == effective_of(config@, snapshot@, report@, now as nat),
{
    if config.paused {
        return EffectiveReport {
            decision: "paused".to_owned(),
            message: config.name.clone().concat(" is paused in config; skipping auto-pull"),
            level: "WARN",
            blocks_auto_pull: true,
        };
    }
    if let Ok(Some(window)) = in_quiet_hours(config, now) {
        return EffectiveReport {
            decision: "quiet-hours".to_owned(),
            message: config.name.clone().concat(" is inside quiet_hours ").concat(
                window.as_str(),
            ).concat("; skipping auto-pull"),
            level: "WARN",
            blocks_auto_pull: true,
        };
    }
    if !branch_allowed(config, snapshot.branch.as_str()) {
        return EffectiveReport {
            decision: "branch-not-allowed".to_owned(),
            message: snapshot.branch.clone().concat(" is not in allowed_branches [").concat(
                join(config.allowed_branches.as_slice(), ", ").as_str(),
            ).concat("]; skipping auto-pull"),
            level: "WARN",
            blocks_auto_pull: true,
        };
    }
    EffectiveReport {
        decision: report.decision.as_str().to_owned(),
        message: report.message.clone(),
        level: report.level,
        blocks_auto_pull: decision_blocks_auto_pull(&report.decision),
    }
}

/// Nothing stands against pulling exactly where the repository is not paused,
/// no quiet hours are on, the branch is allowed, and the branch has no commits
/// of its own and no changes on top of a branch that has moved on.
pub proof fn pulling_is_free(repo: RepositoryView, snapshot: SnapshotView, now: nat)
    ensures
        !effective_of(repo, snapshot, report_of(snapshot), now).blocks_auto_pull <==> {
            &&& !repo.paused
            &&& !(quiet_window(repo.quiet_hours, now) matches Ok(Some(_)))
            &&& allows_branch(repo, snapshot.branch)
            &&& snapshot.ahead == 0
            &&& snapshot.behind > 0 ==> !snapshot.dirty
        },
{
}

/// A paused repository is reported as paused, whatever Git says and whatever
/// the time.
pub proof fn paused_is_reported(
    repo: RepositoryView,
    snapshot: SnapshotView,
    report: SyncReportView,
    now: nat,
)
    requires
        repo.paused,
    ensures
        effective_of(repo, snapshot, report, now).decision == "paused"@,
        effective_of(repo, snapshot, report, now).blocks_auto_pull,
{
}

/// An allowed branch is pulled as if no branches were named.
pub proof fn allowed_branch_is_as_any(
    repo: RepositoryView,
    snapshot: SnapshotView,
    report: SyncReportView,
    now: nat,
)
    requires
        allows_branch(repo, snapshot.branch),
    ensures
        effective_of(repo, snapshot, report, now) == effective_of(
            RepositoryView { allowed_branches: Seq::empty(), ..repo },
            snapshot,
            report,
            now,
        ),
{
}

/// A repository is held back exactly if it is paused, the time is in its quiet
/// hours, it names branches and not this one, or the branch has commits of its
/// own, or changes while it lacks commits.
pub proof fn repositories_are_held_back(
    repo: RepositoryView,
    snapshot: SnapshotView,
    now: nat,
    hours: QuietHoursView,
    s: nat,
    e: nat,
)
    requires
        repo.quiet_hours == Some(hours),
        clock_time(hours.start) == Some(s),
        clock_time(hours.end) == Some(e),
    ensures
        effective_of(repo, snapshot, report_of(snapshot), now).blocks_auto_pull <==> {
            ||| repo.paused
            ||| s < e && s <= now && now < e
            ||| e <= s && (s <= now || now < e)
            ||| repo.allowed_branches.len() > 0 && forall|i: int|
                0 <= i < repo.allowed_branches.len() ==> #[trigger] repo.allowed_branches[i]
                    != snapshot.branch
            ||| snapshot.ahead > 0
            ||| snapshot.behind > 0 && snapshot.dirty
        },
{
    quiet_hours_hold_to_the_second(hours, s, e, now);
    lemma_allowed(repo.allowed_branches, snapshot.branch);
}

proof fn lemma_allowed(branches: Seq<Seq<char>>, branch: Seq<char>)
    ensures
        branches.contains(branch) <==> !(forall|i: int|
            0 <= i < branches.len() ==> #[trigger] branches[i] != branch),
{
}

/// Where no quiet hours are set or they are no times, a repository is held back
/// exactly if it is paused, it names branches and not this one, or the branch
/// has commits of its own, or changes while it lacks commits.
pub proof fn unreadable_hours_hold_nothing_back(
    repo: RepositoryView,
    snapshot: SnapshotView,
    now: nat,
)
    requires
        repo.quiet_hours matches Some(hours) ==> clock_time(hours.start) is None || clock_time(
            hours.end,
        ) is None,
    ensures
        effective_of(repo, snapshot, report_of(snapshot), now).blocks_auto_pull <==> {
            ||| repo.paused
            ||| repo.allowed_branches.len() > 0 && forall|i: int|
                0 <= i < repo.allowed_branches.len() ==> #[trigger] repo.allowed_branches[i]
                    != snapshot.branch
            ||| snapshot.ahead > 0
            ||| snapshot.behind > 0 && snapshot.dirty
        },
{
    lemma_allowed(repo.allowed_branches, snapshot.branch);
}

/// A repository that is held back is warned of; one that nothing in the
/// configuration holds back is reported on as Git found it.
pub proof fn what_is_held_back_is_warned_of(
    repo: RepositoryView,
    snapshot: SnapshotView,
    now: nat,
)
    ensures
        ({
            let report = report_of(snapshot);
            let effective = effective_of(repo, snapshot, report, now);
            &&& effective.blocks_auto_pull ==> effective.level == "WARN"@
            &&& effective.blocks_auto_pull ==> "skipping auto-pull"@.is_suffix_of(
                effective.message,
            )
            &&& !effective.blocks_auto_pull ==> {
                &&& effective.level == report.level
                &&& effective.message == report.message
                &&& effective.decision == decision_name(report.decision)
            }
        }),
{
    messages_say_how_far(snapshot);
    let effective = effective_of(repo, snapshot, report_of(snapshot), now);
    let m = effective.message;
    reveal_strlit("skipping auto-pull");
    reveal_strlit(" is paused in config; skipping auto-pull");
    reveal_strlit("; skipping auto-pull");
    reveal_strlit("]; skipping auto-pull");
    if repo.paused || quiet_window(repo.quiet_hours, now) matches Ok(Some(_)) || !allows_branch(
        repo,
        snapshot.branch,
    ) {
        assert("skipping auto-pull"@ =~= m.subrange(m.len() - 18, m.len() as int));
    }
}

/// A repository that is held back by its configuration is told so by the first
/// of these that holds: it is paused, it is in quiet hours, its branch is not
/// allowed; the message names what holds it back.
pub proof fn what_holds_back_is_named(
    repo: RepositoryView,
    snapshot: SnapshotView,
    report: SyncReportView,
    now: nat,
)
    ensures
        ({
            let effective = effective_of(repo, snapshot, report, now);
            if repo.paused {
                effective.decision == "paused"@ && repo.name.is_prefix_of(effective.message)
            } else if let Ok(Some(window)) = quiet_window(repo.quiet_hours, now) {
                &&& effective.decision == "quiet-hours"@
                &&& repo.name.is_prefix_of(effective.message)
                &&& holds(effective.message, window)
            } else if repo.allowed_branches.len() > 0 && !repo.allowed_branches.contains(
                snapshot.branch,
            ) {
                &&& effective.decision == "branch-not-allowed"@
                &&& snapshot.branch.is_prefix_of(effective.message)
            } else {
                effective.decision == decision_name(report.decision) && effective.message
                    == report.message
            }
        }),
{
    let m = effective_of(repo, snapshot, report, now).message;
    if repo.paused {
        assert(repo.name =~= m.subrange(0, repo.name.len() as int));
    } else if let Ok(Some(window)) = quiet_window(repo.quiet_hours, now) {
        assert(repo.name =~= m.subrange(0, repo.name.len() as int));
        assert(is_around(
            m,
            repo.name + " is inside quiet_hours "@,
            window,
            "; skipping auto-pull"@,
        ));
    } else if !allows_branch(repo, snapshot.branch) {
        assert(snapshot.branch =~= m.subrange(0, snapshot.branch.len() as int));
    }
}

} // verus!
