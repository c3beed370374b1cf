//! The state of repositories, as it is shown on demand.

use crate::config::option_text;
use crate::effective::{EffectiveReport, EffectiveView};
use crate::repo::{
    resolved, PathProbe, RepoError, RepoErrorView, RepoSyncer, Snapshot, SnapshotView,
};
use crate::settings::{selected_views, truth, truth_text, SelectedRepo, SelectedView};
use crate::sync::{ManagedRepo, ManagedView};
use crate::text::{decimal, decimal_text, decimals_are_read_back, number_value, texts};
use vstd::prelude::*;

verus! {

/// What was found of a repository.
#[derive(Debug)]
pub enum Found {
    /// There is no repository at its path.
    NotInitialized { error: String },
    /// The repository could not be probed.
    NotProbed { repo_path: String, error: String },
    /// The repository was probed.
    Probed { repo_path: String, snapshot: Snapshot, effective: EffectiveReport },
}

/// What a [`Found`] says.
#[verifier::ext_equal]
pub enum FoundView {
    NotInitialized { error: Seq<char> },
    NotProbed { repo_path: Seq<char>, error: Seq<char> },
    Probed { repo_path: Seq<char>, snapshot: SnapshotView, effective: EffectiveView },
}

impl View for Found {
    type V = FoundView;

    open spec fn view(&self) -> FoundView {
        match self {
            Found::NotInitialized { error } => FoundView::NotInitialized { error: error@ },
            Found::NotProbed { repo_path, error } => FoundView::NotProbed {
                repo_path: repo_path@,
                error: error@,
            },
            Found::Probed { repo_path, snapshot, effective } => FoundView::Probed {
                repo_path: repo_path@,
                snapshot: snapshot@,
                effective: effective@,
            },
        }
    }
}

/// A repository of the configuration, and what was found of it.
#[derive(Debug)]
pub struct RepoFinding {
    pub name: String,
    pub path: String,
    pub path_exists: bool,
    pub found: Found,
}

/// What a [`RepoFinding`] says.
#[verifier::ext_equal]
pub struct RepoFindingView {
    pub name: Seq<char>,
    pub path: Seq<char>,
    pub path_exists: bool,
    pub found: FoundView,
}

impl View for RepoFinding {
    type V = RepoFindingView;

    open spec fn view(&self) -> RepoFindingView {
        RepoFindingView {
            name: self.name@,
            path: self.path@,
            path_exists: self.path_exists,
            found: self.found@,
        }
    }
}

/// What a list of findings says.
pub open spec fn finding_views(list: Seq<RepoFinding>) -> Seq<RepoFindingView> {
    list.map_values(|finding: RepoFinding| finding@)
}

/// The lines that show the state of a repository that was probed.
pub open spec fn state_lines(snapshot: SnapshotView, effective: EffectiveView) -> Seq<Seq<char>> {
    seq![
        "  branch: "@ + snapshot.branch,
        "  upstream: "@ + snapshot.upstream,
        "  ahead: "@ + decimal(snapshot.ahead as nat),
        "  behind: "@ + decimal(snapshot.behind as nat),
        "  dirty: "@ + truth(snapshot.dirty),
        "  decision: "@ + effective.decision,
        "  message: "@ + effective.message,
    ]
}

/// The lines that show the state of a repository that was probed.
pub(crate) fn state_text(snapshot: &Snapshot, effective: &EffectiveReport) -> (lines: Vec<String>)
    ensures
        texts(lines@) == state_lines(snapshot@, effective@),
{
    let lines = vec![
        "  branch: ".to_owned().concat(snapshot.branch.as_str()),
        "  upstream: ".to_owned().concat(snapshot.upstream.as_str()),
        "  ahead: ".to_owned().concat(decimal_text(snapshot.ahead as u64).as_str()),
        "  behind: ".to_owned().concat(decimal_text(snapshot.behind as u64).as_str()),
        "  dirty: ".to_owned().concat(truth_text(snapshot.dirty)),
        "  decision: ".to_owned().concat(effective.decision.as_str()),
        "  message: ".to_owned().concat(effective.message.as_str()),
    ];
    assert(texts(lines@) =~= state_lines(snapshot@, effective@));
    lines
}

/// The lines that show a repository; none where there is no repository.
pub open spec fn status_lines(finding: RepoFindingView) -> Seq<Seq<char>> {
    match finding.found {
        FoundView::NotInitialized { .. } => Seq::empty(),
        FoundView::NotProbed { repo_path, error } => seq![
            "Repository: "@ + finding.name,
            "  path: "@ + repo_path,
            "  error: "@ + error,
        ],
        FoundView::Probed { repo_path, snapshot, effective } => seq![
            "Repository: "@ + finding.name,
            "  path: "@ + repo_path,
        ] + state_lines(snapshot, effective),
    }
}

/// The lines that show a repository; none where there is no repository.
pub fn status_text(finding: &RepoFinding) -> (lines: Vec<String>)
    ensures
        texts(lines@) == status_lines(finding@),
{
    match &finding.found {
        Found::NotInitialized { .. } => {
            let lines: Vec<String> = Vec::new();
            assert(texts(lines@) =~= Seq::empty());
            lines
        },
        Found::NotProbed { repo_path, error } => {
            let lines = vec![
                "Repository: ".to_owned().concat(finding.name.as_str()),
                "  path: ".to_owned().concat(repo_path.as_str()),
                "  error: ".to_owned().concat(error.as_str()),
            ];
            assert(texts(lines@) =~= status_lines(finding@));
            lines
        },
        Found::Probed { repo_path, snapshot, effective } => {
            let mut lines = vec![
                "Repository: ".to_owned().concat(finding.name.as_str()),
                "  path: ".to_owned().concat(repo_path.as_str()),
            ];
            let ghost head = lines@;
            let mut rest = state_text(snapshot, effective);
            let ghost tail = rest@;
            lines.append(&mut rest);
            assert(texts(lines@) =~= texts(head) + texts(tail));
            assert(texts(head) =~= seq![
                "Repository: "@ + finding@.name,
                "  path: "@ + repo_path@,
            ]);
            lines
        },
    }
}

/// The state of a repository, for other programs.
#[derive(Debug)]
pub struct StatusEntry {
    pub name: String,
    pub path: String,
    pub branch: Option<String>,
    pub upstream: Option<String>,
    pub ahead: Option<u32>,
    pub behind: Option<u32>,
    pub dirty: Option<bool>,
    pub decision: Option<String>,
    pub message: Option<String>,
    pub error: Option<String>,
}

/// What a [`StatusEntry`] says.
#[verifier::ext_equal]
pub struct StatusEntryView {
    pub name: Seq<char>,
    pub path: Seq<char>,
    pub branch: Option<Seq<char>>,
    pub upstream: Option<Seq<char>>,
    pub ahead: Option<u32>,
    pub behind: Option<u32>,
    pub dirty: Option<bool>,
    pub decision: Option<Seq<char>>,
    pub message: Option<Seq<char>>,
    pub error: Option<Seq<char>>,
}

impl View for StatusEntry {
    type V = StatusEntryView;

    open spec fn view(&self) -> StatusEntryView {
        StatusEntryView {
            name: self.name@,
            path: self.path@,
            branch: option_text(self.branch),
            upstream: option_text(self.upstream),
            ahead: self.ahead,
            behind: self.behind,
            dirty: self.dirty,
            decision: option_text(self.decision),
            message: option_text(self.message),
            error: option_text(self.error),
        }
    }
}

/// The states of repositories, for other programs.
#[derive(Debug)]
pub struct StatusOutput {
    pub repositories: Vec<StatusEntry>,
}

/// What a list of entries says.
pub open spec fn entry_views(list: Seq<StatusEntry>) -> Seq<StatusEntryView> {
    list.map_values(|entry: StatusEntry| entry@)
}

/// The entry of a repository.
pub open spec fn entry_of(finding: RepoFindingView) -> StatusEntryView {
    let blank = StatusEntryView {
        name: finding.name,
        path: finding.path,
        branch: None,
        upstream: None,
        ahead: None,
        behind: None,
        dirty: None,
        decision: None,
        message: None,
        error: None,
    };
    match finding.found {
        FoundView::NotInitialized { error } => StatusEntryView { error: Some(error), ..blank },
        FoundView::NotProbed { repo_path, error } => StatusEntryView {
            path: repo_path,
            error: Some(error),
            ..blank
        },
        FoundView::Probed { repo_path, snapshot, effective } => StatusEntryView {
            path: repo_path,
            branch: Some(snapshot.branch),
            upstream: Some(snapshot.upstream),
            ahead: Some(snapshot.ahead),
            behind: Some(snapshot.behind),
            dirty: Some(snapshot.dirty),
            decision: Some(effective.decision),
            message: Some(effective.message),
            ..blank
        },
    }
}

/// The entry of a repository.
pub fn status_entry(finding: &RepoFinding) -> (entry: StatusEntry)
    ensures
        entry@ == entry_of(finding@),
{
    match &finding.found {
        Found::NotInitialized { error } => StatusEntry {
            name: finding.name.clone(),
            path: finding.path.clone(),
            branch: None,
            upstream: None,
            ahead: None,
            behind: None,
            dirty: None,
            decision: None,
            message: None,
            error: Some(error.clone()),
        },
        Found::NotProbed { repo_path, error } => StatusEntry {
            name: finding.name.clone(),
            path: repo_path.clone(),
            branch: None,
            upstream: None,
            ahead: None,
            behind: None,
            dirty: None,
            decision: None,
            message: None,
            error: Some(error.clone()),
        },
        Found::Probed { repo_path, snapshot, effective } => StatusEntry {
            name: finding.name.clone(),
            path: repo_path.clone(),
            branch: Some(snapshot.branch.clone()),
            upstream: Some(snapshot.upstream.clone()),
            ahead: Some(snapshot.ahead),
            behind: Some(snapshot.behind),
            dirty: Some(snapshot.dirty),
            decision: Some(effective.decision.clone()),
            message: Some(effective.message.clone()),
            error: None,
        },
    }
}

/// What is shown of repositories.
#[derive(Debug)]
pub struct StatusReport {
    /// The lines to print.
    pub lines: Vec<String>,
    /// What to print for other programs.
    pub output: Option<StatusOutput>,
    /// Why not all repositories are shown.
    pub error: Option<String>,
}

/// What an optional output says.
pub open spec fn output_view(output: Option<StatusOutput>) -> Option<Seq<StatusEntryView>> {
    match output {
        Some(output) => Some(entry_views(output.repositories@)),
        None => None,
    }
}

/// How many repositories there are before the first path without one.
pub open spec fn initialized(findings: Seq<RepoFindingView>) -> nat
    decreases findings.len(),
{
    if findings.len() == 0 || findings[0].found is NotInitialized {
        0
    } else {
        1 + initialized(findings.drop_first())
    }
}

/// The lines that show the first `n` repositories.
pub open spec fn all_lines(findings: Seq<RepoFindingView>, n: int) -> Seq<Seq<char>>
    decreases n,
{
    if n <= 0 {
        Seq::empty()
    } else {
        all_lines(findings, n - 1) + status_lines(findings[n - 1])
    }
}

/// The words for a path at which there is no repository.
pub open spec fn not_initialized(name: Seq<char>) -> Seq<char> {
    "failed to initialize repository "@ + name
}

proof fn lemma_initialized(findings: Seq<RepoFindingView>, i: int)
    requires
        0 <= i <= findings.len(),
        forall|j: int| 0 <= j < i ==> !((#[trigger] findings[j]).found is NotInitialized),
    ensures
        initialized(findings) == i + initialized(findings.skip(i)),
    decreases i,
{
    if i == 0 {
        assert(findings.skip(0) =~= findings);
    } else {
        assert(!(findings[0].found is NotInitialized));
        assert forall|j: int| 0 <= j < i - 1 implies !((
        #[trigger] findings.drop_first()[j]).found is NotInitialized) by {
            assert(findings.drop_first()[j] == findings[j + 1]);
        }
        lemma_initialized(findings.drop_first(), i - 1);
        assert(findings.drop_first().skip(i - 1) =~= findings.skip(i));
    }
}

/// Shows repositories, in words or for other programs. At the first path
/// without a repository it ends with an error; by then the repositories before
/// it are shown in words, and nothing is shown for other programs.
pub fn render_status(findings: &[RepoFinding], json: bool) -> (report: StatusReport)
    ensures
        ({
            let views = finding_views(findings@);
            let n = initialized(views);
            &&& texts(report.lines@) == if json {
                Seq::empty()
            } else {
                all_lines(views, n as int)
            }
            &&& output_view(report.output) == if json && n == views.len() {
                Some(views.map_values(|finding: RepoFindingView| entry_of(finding)))
            } else {
                None
            }
            &&& option_text(report.error) == if n < views.len() {
                Some(not_initialized(views[n as int].name))
            } else {
                None
            }
        }),
{
    let ghost views = finding_views(findings@);
    let mut lines: Vec<String> = Vec::new();
    let mut entries: Vec<StatusEntry> = Vec::new();
    let mut i: usize = 0;
    assert(texts(lines@) =~= Seq::empty());
    assert(views.skip(0) =~= views);
    while i < findings.len()
        invariant
            i <= findings.len(),
            views == finding_views(findings@),
            forall|j: int| 0 <= j < i ==> !((#[trigger] views[j]).found is NotInitialized),
            texts(lines@) == if json {
                Seq::empty()
            } else {
                all_lines(views, i as int)
            },
            json ==> entry_views(entries@) =~= views.take(i as int).map_values(
                |finding: RepoFindingView| entry_of(finding),
            ),
        decreases findings.len() - i,
    {
        let finding = &findings[i];
        assert(views[i as int] == finding@);
        if let Found::NotInitialized { .. } = &finding.found {
            proof {
                lemma_initialized(views, i as int);
                assert(views.skip(i as int)[0] == finding@);
            }
            return StatusReport {
                lines,
                output: None,
                error: Some(
                    "failed to initialize repository ".to_owned().concat(finding.name.as_str()),
                ),
            };
        }
        if json {
            let ghost before = entries@;
            entries.push(status_entry(finding));
            assert(entry_views(entries@) =~= entry_views(before).push(entry_of(finding@)));
        } else {
            let ghost before = lines@;
            let mut more = status_text(finding);
            let ghost added = more@;
            lines.append(&mut more);
            assert(texts(lines@) =~= texts(before) + texts(added));
        }
        i = i + 1;
    }
    proof {
        lemma_initialized(views, i as int);
        assert(views.skip(i as int) =~= Seq::empty());
        assert(views.take(i as int) =~= views);
    }
    let output = if json {
        Some(StatusOutput { repositories: entries })
    } else {
        None
    };
    StatusReport { lines, output, error: None }
}

/// Whether there is a repository at every path, and at which there is none
/// first.
pub open spec fn first_missing(probes: Seq<PathProbe>, from: int) -> Option<int>
    decreases probes.len() - from,
{
    if from < 0 || from >= probes.len() {
        None
    } else {
        match probes[from] {
            PathProbe::Resolved { has_git: true, .. } => first_missing(probes, from + 1),
            _ => Some(from),
        }
    }
}

/// A repository that is kept up to date, and the means to do it.
#[derive(Debug)]
pub struct ReadyRepo {
    pub managed: ManagedRepo,
    pub syncer: RepoSyncer,
}

/// Why a repository could not be made ready.
#[derive(Debug)]
pub struct NotReady {
    pub message: String,
    pub cause: RepoError,
}

/// Whether repositories that were chosen are ready at the paths that were
/// probed, with nothing said of them yet.
pub open spec fn are_ready(
    repos: Seq<SelectedView>,
    paths: Seq<Seq<char>>,
    probes: Seq<PathProbe>,
    ready: Seq<ReadyRepo>,
) -> bool {
    &&& ready.len() == repos.len()
    &&& forall|i: int|
        0 <= i < ready.len() ==> {
            let repo = #[trigger] ready[i];
            &&& resolved(paths[i], probes[i]) == Ok::<Seq<char>, RepoErrorView>(repo.syncer@)
            &&& repo.managed@ == (ManagedView {
                selected: repos[i],
                repo_path: repo.syncer@,
                last_message: None,
                last_error: None,
            })
        }
}

/// The repositories that were chosen, made ready at their paths by what was
/// found there, or the first that cannot be.
pub fn build_managed_repos(
    repos: Vec<SelectedRepo>,
    paths: &[String],
    probes: &[PathProbe],
) -> (ready: Result<Vec<ReadyRepo>, NotReady>)
    requires
        paths@.len() == repos@.len(),
        probes@.len() == repos@.len(),
    ensures
        match ready {
            Ok(ready) => first_missing(probes@, 0) is None && are_ready(
                selected_views(repos@),
                texts(paths@),
                probes@,
                ready@,
            ),
            Err(error) => first_missing(probes@, 0) matches Some(i) && {
                &&& 0 <= i < repos@.len()
                &&& error.message@ == not_initialized(selected_views(repos@)[i].config.name)
                &&& resolved(texts(paths@)[i], probes@[i]) == Err::<Seq<char>, RepoErrorView>(
                    error.cause@,
                )
            },
        },
{
    let ghost views = selected_views(repos@);
    let ghost places = texts(paths@);
    let mut ready: Vec<ReadyRepo> = Vec::new();
    let mut i: usize = 0;
    while i < repos.len()
        invariant
            i <= repos.len() == paths.len() == probes.len(),
            views == selected_views(repos@),
            places == texts(paths@),
            first_missing(probes@, 0) == first_missing(probes@, i as int),
            ready.len() == i,
            forall|j: int|
                0 <= j < i ==> {
                    let repo = #[trigger] ready@[j];
                    &&& resolved(places[j], probes@[j]) == Ok::<Seq<char>, RepoErrorView>(
                        repo.syncer@,
                    )
                    &&& repo.managed@ == (ManagedView {
                        selected: views[j],
                        repo_path: repo.syncer@,
                        last_message: None,
                        last_error: None,
                    })
                },
        decreases repos.len() - i,
    {
        assert(views[i as int] == repos@[i as int]@);
        assert(places[i as int] == paths@[i as int]@);
        match RepoSyncer::new(paths[i].as_str(), &probes[i]) {
            Ok(syncer) => {
                let path = syncer.repo_path().to_owned();
                let managed = ManagedRepo::new(repos[i].clone(), path);
                ready.push(ReadyRepo { managed, syncer });
            },
            Err(cause) => {
                let message = "failed to initialize repository ".to_owned().concat(
                    repos[i].config.name.as_str(),
                );
                return Err(NotReady { message, cause });
            },
        }
        i = i + 1;
    }
    Ok(ready)
}

/// What is said of a configuration whose repositories are all there, by what was
/// found at their paths, or the first that is not.
pub fn check_config(
    repos: &[SelectedRepo],
    paths: &[String],
    probes: &[PathProbe],
    location: &str,
) -> (message: Result<String, NotReady>)
    requires
        paths@.len() == repos@.len(),
        probes@.len() == repos@.len(),
    ensures
        match message {
            Ok(message) => first_missing(probes@, 0) is None && message@ == "Config OK: "@
                + decimal(repos@.len()) + " enabled repositories in "@ + location@,
            Err(error) => first_missing(probes@, 0) matches Some(i) && {
                &&& 0 <= i < repos@.len()
                &&& error.message@ == not_initialized(selected_views(repos@)[i].config.name)
                &&& resolved(texts(paths@)[i], probes@[i]) == Err::<Seq<char>, RepoErrorView>(
                    error.cause@,
                )
            },
        },
{
    let ghost views = selected_views(repos@);
    let ghost places = texts(paths@);
    let mut i: usize = 0;
    while i < repos.len()
        invariant
            i <= repos.len() == paths.len() == probes.len(),
            views == selected_views(repos@),
            places == texts(paths@),
            first_missing(probes@, 0) == first_missing(probes@, i as int),
        decreases repos.len() - i,
    {
        assert(views[i as int] == repos@[i as int]@);
        assert(places[i as int] == paths@[i as int]@);
        if let Err(cause) = RepoSyncer::new(paths[i].as_str(), &probes[i]) {
            let message = "failed to initialize repository ".to_owned().concat(
                repos[i].config.name.as_str(),
            );
            return Err(NotReady { message, cause });
        }
        i = i + 1;
    }
    Ok(
        "Config OK: ".to_owned().concat(decimal_text(repos.len() as u64).as_str()).concat(
            " enabled repositories in ",
        ).concat(location),
    )
}

/// The entry of a probed repository agrees with what was found of it, field by
/// field, and tells of no error.
pub proof fn entries_agree_with_snapshots(finding: RepoFindingView)
    ensures
        finding.found matches FoundView::Probed { repo_path, snapshot, effective } ==> {
            let entry = entry_of(finding);
            &&& entry.name == finding.name
            &&& entry.path == repo_path
            &&& entry.branch == Some(snapshot.branch)
            &&& entry.upstream == Some(snapshot.upstream)
            &&& entry.ahead == Some(snapshot.ahead)
            &&& entry.behind == Some(snapshot.behind)
            &&& entry.dirty == Some(snapshot.dirty)
            &&& entry.decision == Some(effective.decision)
            &&& entry.message == Some(effective.message)
            &&& entry.error is None
        },
{
}

/// The entry of a repository that could not be probed tells the error and no
/// state, at the path where it was looked for.
pub proof fn entries_tell_errors(finding: RepoFindingView)
    ensures
        !(finding.found is Probed) ==> {
            let entry = entry_of(finding);
            &&& entry.name == finding.name
            &&& entry.branch is None && entry.upstream is None
            &&& entry.ahead is None && entry.behind is None && entry.dirty is None
            &&& entry.decision is None && entry.message is None
            &&& finding.found matches FoundView::NotInitialized { error } ==> entry.error == Some(
                error,
            ) && entry.path == finding.path
            &&& finding.found matches FoundView::NotProbed { repo_path, error } ==> entry.error
                == Some(error) && entry.path == repo_path
        },
{
}

/// The lines on a probed repository give its name, its path and the state of its
/// snapshot, each number as it is counted.
pub proof fn lines_agree_with_snapshots(finding: RepoFindingView)
    ensures
        finding.found matches FoundView::Probed { repo_path, snapshot, effective } ==> {
            let lines = status_lines(finding);
            &&& lines.len() == 9
            &&& lines[0] == "Repository: "@ + finding.name
            &&& lines[1] == "  path: "@ + repo_path
            &&& lines[2] == "  branch: "@ + snapshot.branch
            &&& lines[3] == "  upstream: "@ + snapshot.upstream
            &&& lines[4].len() > 9 && number_value(lines[4].skip(9)) == snapshot.ahead
            &&& lines[5].len() > 10 && number_value(lines[5].skip(10)) == snapshot.behind
            &&& "  ahead: "@.is_prefix_of(lines[4]) && "  behind: "@.is_prefix_of(lines[5])
            &&& lines[6] == "  dirty: "@ + if snapshot.dirty {
                "true"@
            } else {
                "false"@
            }
            &&& lines[7] == "  decision: "@ + effective.decision
            &&& lines[8] == "  message: "@ + effective.message
        },
{
    if let FoundView::Probed { repo_path, snapshot, effective } = finding.found {
        let lines = status_lines(finding);
        reveal_strlit("  ahead: ");
        reveal_strlit("  behind: ");
        decimals_are_read_back(snapshot.ahead as nat);
        decimals_are_read_back(snapshot.behind as nat);
        assert(lines[4] == "  ahead: "@ + decimal(snapshot.ahead as nat));
        assert(lines[5] == "  behind: "@ + decimal(snapshot.behind as nat));
        assert(lines[4].skip(9) =~= decimal(snapshot.ahead as nat));
        assert(lines[5].skip(10) =~= decimal(snapshot.behind as nat));
        assert("  ahead: "@ =~= lines[4].subrange(0, 9));
        assert("  behind: "@ =~= lines[5].subrange(0, 10));
    }
}

/// The lines on a repository that could not be probed give its name, its path
/// and the error.
pub proof fn lines_tell_errors(finding: RepoFindingView)
    ensures
        finding.found matches FoundView::NotProbed { repo_path, error } ==> {
            let lines = status_lines(finding);
            &&& lines.len() == 3
            &&& finding.name.is_suffix_of(lines[0])
            &&& repo_path.is_suffix_of(lines[1])
            &&& lines[2] == "  error: "@ + error
        },
{
    if let FoundView::NotProbed { repo_path, error } = finding.found {
        let a = status_lines(finding)[0];
        let b = status_lines(finding)[1];
        assert(finding.name =~= a.subrange(a.len() - finding.name.len(), a.len() as int));
        assert(repo_path =~= b.subrange(b.len() - repo_path.len(), b.len() as int));
    }
}

/// Repositories are shown up to the first path without one: there is one at
/// each place before, and none there.
pub proof fn showing_stops_at_the_first_missing(findings: Seq<RepoFindingView>)
    ensures
        initialized(findings) <= findings.len(),
        forall|i: int|
            0 <= i < initialized(findings) ==> !((#[trigger] findings[i]).found is NotInitialized),
        initialized(findings) < findings.len() ==> findings[initialized(
            findings,
        ) as int].found is NotInitialized,
    decreases findings.len(),
{
    if findings.len() > 0 && !(findings[0].found is NotInitialized) {
        let rest = findings.drop_first();
        showing_stops_at_the_first_missing(rest);
        assert forall|i: int| 0 <= i < initialized(findings) implies !((
        #[trigger] findings[i]).found is NotInitialized) by {
            if i > 0 {
                assert(findings[i] == rest[i - 1]);
            }
        }
    }
}

/// Each repository that is shown is shown in full, behind those before it.
pub proof fn repositories_are_shown_in_order(findings: Seq<RepoFindingView>, n: int, i: int)
    requires
        0 <= i < n <= findings.len(),
    ensures
        all_lines(findings, i).len() + status_lines(findings[i]).len() <= all_lines(
            findings,
            n,
        ).len(),
        all_lines(findings, n).subrange(
            all_lines(findings, i).len() as int,
            (all_lines(findings, i).len() + status_lines(findings[i]).len()) as int,
        ) == status_lines(findings[i]),
        all_lines(findings, 0).len() == 0,
        all_lines(findings, i + 1).len() == all_lines(findings, i).len() + status_lines(
            findings[i],
        ).len(),
    decreases n,
{
    let from = all_lines(findings, i).len() as int;
    let to = from + status_lines(findings[i]).len();
    let before = all_lines(findings, n - 1);
    let all = all_lines(findings, n);
    if i < n - 1 {
        repositories_are_shown_in_order(findings, n - 1, i);
        assert(all.subrange(from, to) =~= before.subrange(from, to));
    } else {
        assert(all.subrange(from, to) =~= status_lines(findings[i]));
    }
}

/// Repositories are ready exactly where each path leads to one, and the first
/// path that does not is the one that is told.
pub proof fn the_first_missing_is_told(probes: Seq<PathProbe>, from: int)
    requires
        0 <= from <= probes.len(),
    ensures
        match first_missing(probes, from) {
            Some(i) => {
                &&& from <= i < probes.len()
                &&& !(probes[i] matches PathProbe::Resolved { has_git: true, .. })
                &&& forall|j: int|
                    from <= j < i ==> (#[trigger] probes[j] matches PathProbe::Resolved {
                        has_git: true,
                        ..
                    })
            },
            None => forall|j: int|
                from <= j < probes.len() ==> (#[trigger] probes[j] matches PathProbe::Resolved {
                    has_git: true,
                    ..
                }),
        },
    decreases probes.len() - from,
{
    if from < probes.len() {
        if let PathProbe::Resolved { has_git: true, .. } = probes[from] {
            the_first_missing_is_told(probes, from + 1);
        }
    }
}

/// The words for a path without a repository name the repository.
pub proof fn missing_repositories_are_named(name: Seq<char>)
    ensures
        name.is_suffix_of(not_initialized(name)),
{
    let s = not_initialized(name);
    assert(name =~= s.subrange(s.len() - name.len(), s.len() as int));
}

/// Every repository that was chosen is ready in its place, at the path where it
/// was found, with the settings it was chosen with and a memory of nothing.
pub proof fn chosen_repositories_are_made_ready(
    repos: Seq<SelectedView>,
    paths: Seq<Seq<char>>,
    probes: Seq<PathProbe>,
    ready: Seq<ReadyRepo>,
    i: int,
)
    requires
        are_ready(repos, paths, probes, ready),
    ensures
        ready.len() == repos.len(),
        0 <= i < repos.len() ==> {
            let managed = ready[i].managed@;
            &&& managed.selected == repos[i]
            &&& resolved(paths[i], probes[i]) == Ok::<Seq<char>, RepoErrorView>(ready[i].syncer@)
            &&& managed.repo_path == ready[i].syncer@
            &&& managed.last_message is None
            &&& managed.last_error is None
        },
{
}

} // verus!
