use repo_auto_puller::outcome::CommandOutcome;
use repo_auto_puller::puller::{RepoAutoPuller, RoundStep};
use repo_auto_puller::config::Seconds;
use repo_auto_puller::repo::{
    parse_counts, probe_repository, resolve_repo, GitReply, PathProbe, RepoContext, RepoError,
    RepoSyncer, Snapshot, Step, SyncDecision, SyncReport,
};

fn snapshot(ahead: u32, behind: u32, dirty: bool) -> Snapshot {
    Snapshot {
        branch: "main".into(),
        upstream: "origin/main".into(),
        remote: "origin".into(),
        remote_branch: "main".into(),
        ahead,
        behind,
        dirty,
    }
}

fn found(path: &str) -> PathProbe {
    PathProbe::Resolved { canonical: path.into(), has_git: true }
}

fn syncer() -> RepoSyncer {
    RepoSyncer::new("/src/repo", &found("/src/repo")).expect("the repository is there")
}

fn ok(text: &str) -> GitReply {
    Ok(text.into())
}

fn asked<T>(step: Step<T>) -> Vec<String> {
    match step {
        Step::Git(args) => args,
        _ => panic!("a question for Git was expected"),
    }
}

fn done<T>(step: Step<T>) -> T {
    match step {
        Step::Done(value) => value,
        Step::Git(args) => panic!("no question was expected: {:?}", args),
        Step::Failed(error) => panic!("no error was expected: {}", error.message()),
    }
}

fn failed<T>(step: Step<T>) -> String {
    match step {
        Step::Failed(error) => error.message(),
        _ => panic!("an error was expected"),
    }
}

fn exited(success: bool, stdout: &str, stderr: &str) -> CommandOutcome {
    CommandOutcome::Exited {
        success,
        status: "exit status: 0".into(),
        stdout: stdout.as_bytes().to_vec(),
        stderr: stderr.as_bytes().to_vec(),
    }
}

#[test]
fn chooses_up_to_date() {
    let snapshot = Snapshot {
        branch: "main".into(),
        upstream: "origin/main".into(),
        remote: "origin".into(),
        remote_branch: "main".into(),
        ahead: 0,
        behind: 0,
        dirty: false,
    };
    assert_eq!(RepoSyncer::sync_decision(&snapshot), SyncDecision::UpToDate);
}

#[test]
fn chooses_dirty_behind_before_pull() {
    let snapshot = Snapshot {
        branch: "main".into(),
        upstream: "origin/main".into(),
        remote: "origin".into(),
        remote_branch: "main".into(),
        ahead: 0,
        behind: 2,
        dirty: true,
    };
    assert_eq!(
        RepoSyncer::sync_decision(&snapshot),
        SyncDecision::DirtyBehind
    );
}

#[test]
fn chooses_diverged() {
    let snapshot = Snapshot {
        branch: "main".into(),
        upstream: "origin/main".into(),
        remote: "origin".into(),
        remote_branch: "main".into(),
        ahead: 1,
        behind: 2,
        dirty: false,
    };
    assert_eq!(RepoSyncer::sync_decision(&snapshot), SyncDecision::Diverged);
}

#[test]
fn decides_by_commits_and_changes() {
    assert_eq!(RepoSyncer::sync_decision(&snapshot(0, 0, true)), SyncDecision::UpToDate);
    assert_eq!(RepoSyncer::sync_decision(&snapshot(3, 0, false)), SyncDecision::AheadOnly);
    assert_eq!(RepoSyncer::sync_decision(&snapshot(3, 0, true)), SyncDecision::AheadOnly);
    assert_eq!(RepoSyncer::sync_decision(&snapshot(1, 1, true)), SyncDecision::Diverged);
    assert_eq!(RepoSyncer::sync_decision(&snapshot(0, 1, false)), SyncDecision::PullFastForward);
}

#[test]
fn reports_in_words() {
    let cases = [
        (snapshot(0, 0, false), "IDLE", "main is up to date with origin/main"),
        (
            snapshot(1, 2, false),
            "WARN",
            "main diverged from origin/main (ahead 1, behind 2); skipping auto-pull",
        ),
        (
            snapshot(0, 12, true),
            "WARN",
            "main is behind origin/main by 12 commit(s), but the working tree is dirty; skipping auto-pull",
        ),
        (
            snapshot(7, 0, false),
            "WARN",
            "main is ahead of origin/main by 7 commit(s); skipping auto-pull",
        ),
        (snapshot(0, 2, false), "INFO", "main is behind origin/main by 2 commit(s)"),
    ];
    for (state, level, message) in cases {
        let report = RepoSyncer::report(&state);
        assert_eq!(report.level, level);
        assert_eq!(report.message, message);
        assert_eq!(RepoSyncer::describe(&state), (level, message.to_string()));
    }
}

#[test]
fn names_decisions() {
    assert_eq!(SyncDecision::UpToDate.as_str(), "up-to-date");
    assert_eq!(SyncDecision::Diverged.as_str(), "diverged");
    assert_eq!(SyncDecision::DirtyBehind.as_str(), "dirty-behind");
    assert_eq!(SyncDecision::AheadOnly.as_str(), "ahead-only");
    assert_eq!(SyncDecision::PullFastForward.as_str(), "pull-fast-forward");
}

#[test]
fn resolves_repositories() {
    assert_eq!(resolve_repo("~/x", &found("/home/u/x")).expect("found"), "/home/u/x");
    let nowhere = resolve_repo("/no/where", &PathProbe::Unresolved).expect_err("nothing there");
    assert_eq!(nowhere.message(), "failed to resolve repo path /no/where");
    let plain = PathProbe::Resolved { canonical: "/tmp/plain".into(), has_git: false };
    let plain = resolve_repo("/tmp/../tmp/plain", &plain).expect_err("no repository");
    assert_eq!(plain.message(), "/tmp/plain is not a Git repository");
    assert_eq!(syncer().repo_path(), "/src/repo");
}

#[test]
fn reads_what_git_answers() {
    let syncer = syncer();
    let args = vec!["status".to_string(), "--porcelain".to_string()];
    assert_eq!(syncer.git_arguments(&args), vec!["-C", "/src/repo", "status", "--porcelain"]);
    let reply = syncer.run_git(&args, &exited(true, "  M file\n", ""));
    assert_eq!(reply.expect("it succeeded"), "M file");
    let reply = syncer.run_git(&args, &exited(false, "", " fatal: no\n"));
    assert_eq!(reply.expect_err("it failed").message(), "git status --porcelain failed: fatal: no");
    let reply = syncer.run_git(&args, &CommandOutcome::NotStarted { reason: "none".into() });
    assert_eq!(reply.expect_err("no git").message(), "failed to execute git status --porcelain");
}

#[test]
fn replaces_bytes_that_are_no_text() {
    let outcome = CommandOutcome::Exited {
        success: true,
        status: "exit status: 0".into(),
        stdout: vec![0xff, b'a', 0xc3, 0xa9, b'\n'],
        stderr: Vec::new(),
    };
    assert_eq!(syncer().run_git(&[], &outcome).expect("it succeeded"), "\u{fffd}a\u{e9}");
}

#[test]
fn reads_a_context_step_by_step() {
    let syncer = syncer();
    assert_eq!(asked(syncer.read_context(&[])), vec!["rev-parse", "--abbrev-ref", "HEAD"]);
    let branch = ok("feature/x");
    assert_eq!(
        asked(syncer.read_context(&[branch])),
        vec!["for-each-ref", "--format=%(upstream:short)", "refs/heads/feature/x"]
    );
    assert_eq!(
        asked(syncer.read_context(&[ok("feature/x"), ok("origin/feature/x")])),
        vec!["status", "--porcelain"]
    );
    let context: RepoContext =
        done(syncer.read_context(&[ok("feature/x"), ok("origin/feature/x"), ok("?? new")]));
    assert_eq!(context.branch, "feature/x");
    assert_eq!(context.upstream, "origin/feature/x");
    assert_eq!(context.remote, "origin");
    assert_eq!(context.remote_branch, "feature/x");
    assert!(context.dirty);
}

#[test]
fn refuses_what_cannot_be_followed() {
    let syncer = syncer();
    assert_eq!(failed(syncer.read_context(&[ok("HEAD")])), "detached HEAD is not supported");
    assert_eq!(
        failed(syncer.read_context(&[ok("main"), ok("")])),
        "branch \"main\" has no upstream configured"
    );
    assert_eq!(
        failed(syncer.read_context(&[ok("a\"b"), ok("")])),
        "branch \"a\\\"b\" has no upstream configured"
    );
    assert_eq!(
        failed(syncer.read_context(&[ok("main"), ok("local")])),
        "unexpected upstream name: local"
    );
    let error = RepoError::GitFailed { args: vec!["status".into()], stderr: "no".into() };
    assert_eq!(
        failed(syncer.read_context(&[ok("main"), ok("origin/main"), Err(error)])),
        "git status failed: no"
    );
}

#[test]
fn reads_counts() {
    assert_eq!(parse_counts("3\t14").expect("counts"), (3, 14));
    assert_eq!(parse_counts(" +0  4294967295 x").expect("counts"), (0, 4294967295));
    let message = |text: &str| parse_counts(text).expect_err("no counts").message();
    assert_eq!(message(""), "missing ahead count");
    assert_eq!(message("x 1"), "failed to parse ahead count");
    assert_eq!(message("4294967296 1"), "failed to parse ahead count");
    assert_eq!(message("1"), "missing behind count");
    assert_eq!(message("1 -1"), "failed to parse behind count");
}

#[test]
fn probes_with_and_without_fetching() {
    let syncer = syncer();
    let context = || vec![ok("main"), ok("origin/main"), ok("")];
    assert_eq!(
        asked(probe_repository(&syncer, true, &context())),
        vec!["fetch", "--quiet", "origin", "main"]
    );
    assert_eq!(
        asked(probe_repository(&syncer, false, &context())),
        vec!["rev-parse", "--abbrev-ref", "HEAD"]
    );
    let mut replies = context();
    replies.push(ok(""));
    replies.extend(context());
    assert_eq!(
        asked(probe_repository(&syncer, true, &replies)),
        vec!["rev-list", "--left-right", "--count", "HEAD...origin/main"]
    );
    replies.push(ok("0 2"));
    let (state, report): (Snapshot, SyncReport) = done(probe_repository(&syncer, true, &replies));
    assert!(state.same_as(&snapshot(0, 2, false)));
    assert_eq!(state, snapshot(0, 2, false));
    assert_eq!(report.decision, SyncDecision::PullFastForward);
}

#[test]
fn runs_errands_of_git() {
    let syncer = syncer();
    let state = snapshot(0, 1, false);
    assert_eq!(asked(syncer.fetch(&state, &[])), vec!["fetch", "--quiet", "origin", "main"]);
    assert_eq!(
        asked(syncer.fetch_ref("fork", "dev", &[])),
        vec!["fetch", "--quiet", "fork", "dev"]
    );
    assert_eq!(
        asked(syncer.pull_fast_forward(&state, &[])),
        vec!["pull", "--ff-only", "--no-rebase", "origin", "main"]
    );
    done(syncer.pull_fast_forward(&state, &[ok("Updating")]));
    assert_eq!(
        asked(syncer.head_summary(&[])),
        vec!["log", "-1", "--oneline", "--decorate=short", "HEAD"]
    );
    assert_eq!(done(syncer.head_summary(&[ok("abc (HEAD) subject")])), "abc (HEAD) subject");
    let error = RepoError::GitNotStarted { args: vec!["pull".into()] };
    assert_eq!(
        failed(syncer.pull_fast_forward(&state, &[Err(error)])),
        "failed to execute git pull"
    );
}

fn reading(counts: &str) -> Vec<GitReply> {
    vec![ok("main"), ok("origin/main"), ok(""), ok(counts)]
}

fn puller(verbose: bool, dry_run: bool) -> RepoAutoPuller {
    let minute = Seconds { bits: 60.0f64.to_bits() };
    RepoAutoPuller::new(minute, "/src/repo", &found("/src/repo"), verbose, dry_run)
        .expect("the repository is there")
}

fn fetched(counts: &str) -> Vec<GitReply> {
    let mut replies = reading("0 0");
    replies.push(ok(""));
    replies.extend(reading(counts));
    replies
}

fn pulled(counts: &str) -> Vec<GitReply> {
    let mut replies = fetched("0 3");
    replies.push(ok("Fast-forward"));
    replies.extend(reading(counts));
    replies
}

#[test]
fn single_puller_pulls_what_is_new() {
    let mut puller = puller(false, false);
    let mut replies = fetched("0 3");
    assert!(matches!(puller.sync_once(&replies, &[]).step, RoundStep::Write));
    assert!(matches!(puller.sync_once(&replies, &[true]).step, RoundStep::Write));
    let round = puller.sync_once(&replies, &[true, true]);
    match round.step {
        RoundStep::Git(args) => {
            assert_eq!(args, vec!["pull", "--ff-only", "--no-rebase", "origin", "main"])
        }
        step => panic!("no pull: {:?}", step),
    }
    let lines: Vec<(&str, &str)> =
        round.logs.iter().map(|entry| (entry.level, entry.message.as_str())).collect();
    assert_eq!(
        lines,
        vec![
            ("INFO", "main is behind origin/main by 3 commit(s)"),
            ("INFO", "pulling origin/main into main"),
        ]
    );
    assert!(puller.last_snapshot.is_none());
    replies = pulled("1 0");
    replies.push(ok("abc subject"));
    assert!(matches!(puller.sync_once(&replies, &[true, true, true]).step, RoundStep::Write));
    assert!(puller.last_snapshot.is_none());
    let round = puller.sync_once(&replies, &[true, true, true, true]);
    assert!(matches!(round.step, RoundStep::Done));
    assert_eq!(round.logs.len(), 4);
    assert_eq!(round.logs[2].message, "auto-pull complete: abc subject");
    assert_eq!(round.logs[3].level, "WARN");
    assert_eq!(round.logs[3].message, "post-pull status is still ahead 1, behind 0");
    assert_eq!(puller.last_snapshot.expect("it was read").ahead, 1);
}

#[test]
fn single_puller_keeps_quiet_and_dry() {
    let replies = fetched("0 1");
    let round = puller(false, true).sync_once(&replies, &[true, true]);
    assert!(matches!(round.step, RoundStep::Done));
    assert_eq!(round.logs[1].message, "dry-run: main would fast-forward pull origin/main");

    let replies = fetched("0 0");
    let mut quiet = puller(false, false);
    assert_eq!(quiet.sync_once(&replies, &[true]).logs.len(), 1);
    let round = quiet.sync_once(&replies, &[]);
    assert!(matches!(round.step, RoundStep::Done));
    assert_eq!(round.logs.len(), 0);
    quiet.verbose = true;
    assert_eq!(quiet.sync_once(&replies, &[]).logs.len(), 1);
}

#[test]
fn single_puller_remembers_what_it_could_log() {
    let mut puller = puller(false, false);
    let (old, new) = (snapshot(0, 0, false), snapshot(0, 2, false));
    let told = puller.maybe_log_snapshot(&old, &[]);
    assert!(matches!(told.step, RoundStep::Write));
    assert_eq!(told.logs[0].level, "IDLE");
    assert_eq!(told.logs[0].message, "main is up to date with origin/main");
    assert_eq!(puller.last_snapshot, None);
    assert!(matches!(puller.maybe_log_snapshot(&old, &[true]).step, RoundStep::Done));
    assert_eq!(puller.last_snapshot, Some(old.clone()));

    let told = puller.maybe_log_snapshot(&new, &[false]);
    assert!(matches!(told.step, RoundStep::Unwritten));
    assert_eq!(told.logs.len(), 1);
    assert_eq!(puller.last_snapshot, Some(old.clone()));

    let told = puller.maybe_log_snapshot(&old, &[false]);
    assert!(matches!(told.step, RoundStep::Done));
    assert!(told.logs.is_empty());
    puller.verbose = true;
    let told = puller.maybe_log_snapshot(&old, &[false]);
    assert!(matches!(told.step, RoundStep::Unwritten));
    assert_eq!(told.logs.len(), 1);
    assert_eq!(puller.last_snapshot, Some(old));
}

#[test]
fn single_puller_ends_where_the_log_does() {
    let ended = |replies: &[GitReply], written: &[bool]| {
        let mut puller = puller(false, false);
        let round = puller.sync_once(replies, written);
        assert!(matches!(round.step, RoundStep::Unwritten));
        assert_eq!(round.logs.len(), written.len());
        puller.last_snapshot.map(|last| (last.ahead, last.behind))
    };
    assert_eq!(ended(&fetched("0 3"), &[false]), None);
    assert_eq!(ended(&fetched("0 3"), &[true, false]), Some((0, 3)));
    let mut replies = pulled("1 0");
    replies.push(ok("abc subject"));
    assert_eq!(ended(&replies, &[true, true, false]), Some((1, 0)));
    assert_eq!(ended(&replies, &[true, true, true, false]), Some((1, 0)));

    let mut dry = puller(false, true);
    let round = dry.sync_once(&fetched("0 3"), &[true, false]);
    assert!(matches!(round.step, RoundStep::Unwritten));
    assert_eq!(dry.last_snapshot.expect("it was told").behind, 3);
}

#[test]
fn single_puller_remembers_what_it_read_before_git_failed() {
    let failed = |replies: &[GitReply]| {
        let mut puller = puller(false, false);
        let round = puller.sync_once(replies, &[true, true]);
        match round.step {
            RoundStep::Failed(error) => assert_eq!(error.message(), "git x failed: no"),
            step => panic!("no failure: {:?}", step),
        }
        puller.last_snapshot.map(|last| (last.ahead, last.behind))
    };
    let broken = || Err(RepoError::GitFailed { args: vec!["x".into()], stderr: "no".into() });
    let mut replies = reading("0 0");
    replies.push(broken());
    assert_eq!(failed(&replies), None);
    let mut replies = fetched("0 3");
    replies.push(broken());
    assert_eq!(failed(&replies), Some((0, 3)));
    let mut replies = pulled("0 0");
    replies.push(broken());
    assert_eq!(failed(&replies), Some((0, 0)));
    replies.push(ok("later"));
    assert_eq!(failed(&replies), Some((0, 0)));
}

#[test]
fn single_puller_needs_an_interval() {
    for interval in [0.0f64, -0.0, -1.5, f64::NEG_INFINITY] {
        let interval = Seconds { bits: interval.to_bits() };
        let error = RepoAutoPuller::new(interval, "/src/repo", &found("/src/repo"), false, false)
            .expect_err("the interval is not positive");
        assert_eq!(error.message(), "--interval must be greater than 0");
    }
    let half = Seconds { bits: 0.5f64.to_bits() };
    let error = RepoAutoPuller::new(half, "/x", &PathProbe::Unresolved, false, false)
        .expect_err("nothing is there");
    assert_eq!(error.message(), "failed to resolve repo path /x");
    assert!(!Seconds { bits: f64::NAN.to_bits() }.is_zero_or_less());
    assert!(!Seconds { bits: f64::INFINITY.to_bits() }.is_zero_or_less());
    assert!(!Seconds { bits: f64::MIN_POSITIVE.to_bits() }.is_zero_or_less());
}
