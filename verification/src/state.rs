//! What is remembered of the repositories: their last state, and the history.

use crate::config::{option_text, AppConfig};
use crate::effective::{EffectiveReport, EffectiveView};
use crate::paths::{
    default_history_file_path, default_state_file_path, expand_tilde, is_default_path, is_expanded,
    option_str,
};
use crate::repo::{Snapshot, SnapshotView};
use crate::text::{chars_of, same_text};
use vstd::prelude::*;

verus! {

/// What is recorded of one check of a repository, with the time of the check.
#[derive(Debug)]
pub struct PersistedRepoState {
    pub name: String,
    pub path: String,
    pub updated_at: String,
    pub level: String,
    pub branch: Option<String>,
    pub upstream: Option<String>,
    pub ahead: Option<u32>,
    pub behind: Option<u32>,
    pub dirty: Option<bool>,
    pub decision: Option<String>,
    pub message: Option<String>,
    pub error: Option<String>,
}

/// What is recorded of one check of a repository.
#[verifier::ext_equal]
pub struct RecordView {
    pub name: Seq<char>,
    pub path: Seq<char>,
    pub time: Seq<char>,
    pub level: Seq<char>,
    pub branch: Option<Seq<char>>,
    pub upstream: Option<Seq<char>>,
    pub ahead: Option<u32>,
    pub behind: Option<u32>,
    pub dirty: Option<bool>,
    pub decision: Option<Seq<char>>,
    pub message: Option<Seq<char>>,
    pub error: Option<Seq<char>>,
}

impl View for PersistedRepoState {
    type V = RecordView;

    open spec fn view(&self) -> RecordView {
        RecordView {
            name: self.name@,
            path: self.path@,
            time: self.updated_at@,
            level: self.level@,
            branch: option_text(self.branch),
            upstream: option_text(self.upstream),
            ahead: self.ahead,
            behind: self.behind,
            dirty: self.dirty,
            decision: option_text(self.decision),
            message: option_text(self.message),
            error: option_text(self.error),
        }
    }
}

/// One line of the history.
#[derive(Debug)]
pub struct HistoryRecord {
    pub recorded_at: String,
    pub name: String,
    pub path: String,
    pub level: String,
    pub branch: Option<String>,
    pub upstream: Option<String>,
    pub ahead: Option<u32>,
    pub behind: Option<u32>,
    pub dirty: Option<bool>,
    pub decision: Option<String>,
    pub message: Option<String>,
    pub error: Option<String>,
}

impl View for HistoryRecord {
    type V = RecordView;

    open spec fn view(&self) -> RecordView {
        RecordView {
            name: self.name@,
            path: self.path@,
            time: self.recorded_at@,
            level: self.level@,
            branch: option_text(self.branch),
            upstream: option_text(self.upstream),
            ahead: self.ahead,
            behind: self.behind,
            dirty: self.dirty,
            decision: option_text(self.decision),
            message: option_text(self.message),
            error: option_text(self.error),
        }
    }
}

/// What is recorded of a check that went well.
pub open spec fn success_record(
    name: Seq<char>,
    path: Seq<char>,
    time: Seq<char>,
    snapshot: SnapshotView,
    effective: EffectiveView,
) -> RecordView {
    RecordView {
        name,
        path,
        time,
        level: effective.level,
        branch: Some(snapshot.branch),
        upstream: Some(snapshot.upstream),
        ahead: Some(snapshot.ahead),
        behind: Some(snapshot.behind),
        dirty: Some(snapshot.dirty),
        decision: Some(effective.decision),
        message: Some(effective.message),
        error: None,
    }
}

/// What is recorded of a check that failed.
pub open spec fn error_record(
    name: Seq<char>,
    path: Seq<char>,
    time: Seq<char>,
    error: Seq<char>,
) -> RecordView {
    RecordView {
        name,
        path,
        time,
        level: "ERROR"@,
        branch: None,
        upstream: None,
        ahead: None,
        behind: None,
        dirty: None,
        decision: None,
        message: None,
        error: Some(error),
    }
}

impl PersistedRepoState {
    /// The state after a check that went well.
    pub fn success(
        name: &str,
        path: &str,
        time: &str,
        snapshot: &Snapshot,
        effective: &EffectiveReport,
    ) -> (state: PersistedRepoState)
        ensures
            state@ == success_record(name@, path@, time@, snapshot@, effective@),
    {
        PersistedRepoState {
            name: name.to_owned(),
            path: path.to_owned(),
            updated_at: time.to_owned(),
            level: effective.level.to_owned(),
            branch: Some(snapshot.branch.clone()),
            upstream: Some(snapshot.upstream.clone()),
            ahead: Some(snapshot.ahead),
            behind: Some(snapshot.behind),
            dirty: Some(snapshot.dirty),
            decision: Some(effective.decision.clone()),
            message: Some(effective.message.clone()),
            error: None,
        }
    }

    /// The state after a check that failed.
    pub fn failure(name: &str, path: &str, time: &str, error: &str) -> (state: PersistedRepoState)
        ensures
            state@ == error_record(name@, path@, time@, error@),
    {
        PersistedRepoState {
            name: name.to_owned(),
            path: path.to_owned(),
            updated_at: time.to_owned(),
            level: "ERROR".to_owned(),
            branch: None,
            upstream: None,
            ahead: None,
            behind: None,
            dirty: None,
            decision: None,
            message: None,
            error: Some(error.to_owned()),
        }
    }
}

impl HistoryRecord {
    /// The line for a check that went well.
    pub fn success(
        name: &str,
        path: &str,
        time: &str,
        snapshot: &Snapshot,
        effective: &EffectiveReport,
    ) -> (record: HistoryRecord)
        ensures
            record@ == success_record(name@, path@, time@, snapshot@, effective@),
    {
        HistoryRecord {
            recorded_at: time.to_owned(),
            name: name.to_owned(),
            path: path.to_owned(),
            level: effective.level.to_owned(),
            branch: Some(snapshot.branch.clone()),
            upstream: Some(snapshot.upstream.clone()),
            ahead: Some(snapshot.ahead),
            behind: Some(snapshot.behind),
            dirty: Some(snapshot.dirty),
            decision: Some(effective.decision.clone()),
            message: Some(effective.message.clone()),
            error: None,
        }
    }

    /// The line for a check that failed.
    pub fn failure(name: &str, path: &str, time: &str, error: &str) -> (record: HistoryRecord)
        ensures
            record@ == error_record(name@, path@, time@, error@),
    {
        HistoryRecord {
            recorded_at: time.to_owned(),
            name: name.to_owned(),
            path: path.to_owned(),
            level: "ERROR".to_owned(),
            branch: None,
            upstream: None,
            ahead: None,
            behind: None,
            dirty: None,
            decision: None,
            message: None,
            error: Some(error.to_owned()),
        }
    }
}

/// Whether a text comes before another, character by character.
pub open spec fn text_before(a: Seq<char>, b: Seq<char>) -> bool
    decreases a.len(),
{
    if b.len() == 0 {
        false
    } else if a.len() == 0 {
        true
    } else if a[0] != b[0] {
        a[0] < b[0]
    } else {
        text_before(a.drop_first(), b.drop_first())
    }
}

proof fn lemma_before_is_total(a: Seq<char>, b: Seq<char>)
    ensures
        a != b ==> text_before(a, b) || text_before(b, a),
        !(text_before(a, b) && text_before(b, a)),
        text_before(a, b) ==> a != b,
    decreases a.len(),
{
    if a.len() > 0 && b.len() > 0 {
        lemma_before_is_total(a.drop_first(), b.drop_first());
        if a[0] == b[0] && a.drop_first() == b.drop_first() {
            assert(a =~= seq![a[0]] + a.drop_first());
            assert(b =~= seq![b[0]] + b.drop_first());
        }
    } else if a.len() == 0 && b.len() == 0 {
        assert(a =~= b);
    }
}

proof fn lemma_before_is_transitive(a: Seq<char>, b: Seq<char>, c: Seq<char>)
    requires
        text_before(a, b),
        text_before(b, c),
    ensures
        text_before(a, c),
    decreases a.len(),
{
    if a.len() > 0 && a[0] == b[0] && b[0] == c[0] {
        lemma_before_is_transitive(a.drop_first(), b.drop_first(), c.drop_first());
    }
}

/// Whether a text comes before another, character by character.
fn is_before(a: &str, b: &str) -> (before: bool)
    ensures
        before == text_before(a@, b@),
{
    let first = chars_of(a);
    let second = chars_of(b);
    let mut i: usize = 0;
    assert(a@.skip(0) =~= a@);
    assert(b@.skip(0) =~= b@);
    loop
        invariant
            first@ == a@,
            second@ == b@,
            i <= first.len(),
            i <= second.len(),
            text_before(a@, b@) == text_before(a@.skip(i as int), b@.skip(i as int)),
        decreases first.len() - i,
    {
        if i == second.len() {
            return false;
        }
        if i == first.len() {
            return true;
        }
        if first[i] != second[i] {
            return first[i] < second[i];
        }
        assert(a@.skip(i as int).drop_first() =~= a@.skip(i + 1));
        assert(b@.skip(i as int).drop_first() =~= b@.skip(i + 1));
        i = i + 1;
    }
}

/// A state under the name of its repository.
#[derive(Debug)]
pub struct StateEntry {
    pub key: String,
    pub state: PersistedRepoState,
}

/// Whether entries are in the order of their names, with no name twice.
pub open spec fn in_order(entries: Seq<StateEntry>) -> bool {
    forall|i: int, j: int|
        0 <= i < j < entries.len() ==> text_before(
            (#[trigger] entries[i]).key@,
            (#[trigger] entries[j]).key@,
        )
}

/// Where the entry under a name stands.
pub open spec fn entry_place(entries: Seq<StateEntry>, key: Seq<char>) -> int {
    choose|i: int| 0 <= i < entries.len() && (#[trigger] entries[i]).key@ == key
}

/// The states by name.
pub open spec fn states_by_name(entries: Seq<StateEntry>) -> Map<Seq<char>, RecordView> {
    Map::new(
        |key: Seq<char>|
            exists|i: int| 0 <= i < entries.len() && (#[trigger] entries[i]).key@ == key,
        |key: Seq<char>| entries[entry_place(entries, key)].state@,
    )
}

/// The states of repositories by name, in the order of the names.
#[derive(Debug)]
pub struct RepoStates {
    entries: Vec<StateEntry>,
}

impl View for RepoStates {
    type V = Map<Seq<char>, RecordView>;

    closed spec fn view(&self) -> Map<Seq<char>, RecordView> {
        states_by_name(self.entries@)
    }
}

proof fn lemma_states_by_name(entries: Seq<StateEntry>, i: int)
    requires
        in_order(entries),
        0 <= i < entries.len(),
    ensures
        states_by_name(entries).dom().contains(entries[i].key@),
        states_by_name(entries)[entries[i].key@] == entries[i].state@,
{
    let key = entries[i].key@;
    let j = entry_place(entries, key);
    assert(0 <= j < entries.len() && entries[j].key@ == key);
    if i < j {
        lemma_before_is_total(entries[i].key@, entries[j].key@);
    } else if j < i {
        lemma_before_is_total(entries[j].key@, entries[i].key@);
    }
}

impl RepoStates {
    #[verifier::type_invariant]
    spec fn sorted(self) -> bool {
        in_order(self.entries@)
    }

    /// No states.
    pub fn new() -> (states: Self)
        ensures
            states@ == Map::<Seq<char>, RecordView>::empty(),
    {
        let entries: Vec<StateEntry> = Vec::new();
        assert(states_by_name(entries@) =~= Map::<Seq<char>, RecordView>::empty());
        RepoStates { entries }
    }

    /// The entries, in the order of their names.
    pub fn entries(&self) -> (entries: &Vec<StateEntry>)
        ensures
            in_order(entries@),
            self@ == states_by_name(entries@),
    {
        proof {
            use_type_invariant(self);
        }
        &self.entries
    }

    /// The state under a name.
    pub fn get(&self, key: &str) -> (state: Option<&PersistedRepoState>)
        ensures
            match state {
                Some(state) => self@.dom().contains(key@) && self@[key@] == state@,
                None => !self@.dom().contains(key@),
            },
    {
        proof {
            use_type_invariant(self);
        }
        let mut i: usize = 0;
        while i < self.entries.len()
            invariant
                i <= self.entries.len(),
                in_order(self.entries@),
                forall|j: int| 0 <= j < i ==> (#[trigger] self.entries@[j]).key@ != key@,
            decreases self.entries.len() - i,
        {
            if same_text(self.entries[i].key.as_str(), key) {
                proof {
                    lemma_states_by_name(self.entries@, i as int);
                }
                return Some(&self.entries[i].state);
            }
            i = i + 1;
        }
        None
    }

    /// Puts a state under a name, in the place of the one that was there.
    pub fn insert(&mut self, key: String, state: PersistedRepoState)
        ensures
            final(self)@ == old(self)@.insert(key@, state@),
    {
        proof {
            use_type_invariant(&*self);
        }
        let mut entries: Vec<StateEntry> = Vec::new();
        std::mem::swap(&mut entries, &mut self.entries);
        let ghost before = entries@;
        let mut i: usize = 0;
        while i < entries.len() && is_before(entries[i].key.as_str(), key.as_str())
            invariant
                i <= entries.len(),
                entries@ == before,
                forall|j: int| 0 <= j < i ==> text_before((#[trigger] before[j]).key@, key@),
            decreases entries.len() - i,
        {
            i = i + 1;
        }
        let ghost name = key@;
        let ghost record = state@;
        if i < entries.len() && entries[i].key == key {
            entries.set(i, StateEntry { key, state });
            proof {
                lemma_replaced(before, i as int, entries@[i as int]);
            }
        } else {
            entries.insert(i, StateEntry { key, state });
            proof {
                lemma_inserted(before, i as int, entries@[i as int]);
            }
        }
        assert(in_order(entries@));
        assert(states_by_name(entries@) == states_by_name(before).insert(name, record));
        self.entries = entries;
    }
}

proof fn lemma_replaced(entries: Seq<StateEntry>, i: int, entry: StateEntry)
    requires
        in_order(entries),
        0 <= i < entries.len(),
        entries[i].key@ == entry.key@,
    ensures
        in_order(entries.update(i, entry)),
        states_by_name(entries.update(i, entry)) == states_by_name(entries).insert(
            entry.key@,
            entry.state@,
        ),
{
    let after = entries.update(i, entry);
    assert forall|j: int, k: int| 0 <= j < k < after.len() implies text_before(
        (#[trigger] after[j]).key@,
        (#[trigger] after[k]).key@,
    ) by {
        assert(text_before(entries[j].key@, entries[k].key@));
    }
    let old_map = states_by_name(entries).insert(entry.key@, entry.state@);
    let new_map = states_by_name(after);
    lemma_states_by_name(after, i);
    assert forall|key: Seq<char>| old_map.dom().contains(key) <==> new_map.dom().contains(key) by {
        if new_map.dom().contains(key) {
            let j = choose|j: int| 0 <= j < after.len() && (#[trigger] after[j]).key@ == key;
            assert(entries[j].key@ == key);
        }
        if states_by_name(entries).dom().contains(key) {
            let j = choose|j: int| 0 <= j < entries.len() && (#[trigger] entries[j]).key@ == key;
            assert(after[j].key@ == key);
        }
    }
    assert forall|key: Seq<char>| new_map.dom().contains(key) implies new_map[key]
        == old_map[key] by {
        let j = choose|j: int| 0 <= j < after.len() && (#[trigger] after[j]).key@ == key;
        lemma_states_by_name(after, j);
        if j != i {
            lemma_states_by_name(entries, j);
            if j < i {
                lemma_before_is_total(after[j].key@, after[i].key@);
            } else {
                lemma_before_is_total(after[i].key@, after[j].key@);
            }
        }
    }
    assert(new_map =~= old_map);
}

proof fn lemma_inserted(entries: Seq<StateEntry>, i: int, entry: StateEntry)
    requires
        in_order(entries),
        0 <= i <= entries.len(),
        forall|j: int| 0 <= j < i ==> text_before((#[trigger] entries[j]).key@, entry.key@),
        i < entries.len() ==> !text_before(entries[i].key@, entry.key@),
        i < entries.len() ==> entries[i].key@ != entry.key@,
    ensures
        in_order(entries.insert(i, entry)),
        states_by_name(entries.insert(i, entry)) == states_by_name(entries).insert(
            entry.key@,
            entry.state@,
        ),
{
    let after = entries.insert(i, entry);
    assert forall|j: int| i <= j < entries.len() implies text_before(
        entry.key@,
        (#[trigger] entries[j]).key@,
    ) by {
        lemma_before_is_total(entries[i].key@, entry.key@);
        if j > i {
            lemma_before_is_transitive(entry.key@, entries[i].key@, entries[j].key@);
        }
    }
    assert forall|j: int, k: int| 0 <= j < k < after.len() implies text_before(
        (#[trigger] after[j]).key@,
        (#[trigger] after[k]).key@,
    ) by {
        let a = if j < i {
            j
        } else {
            j - 1
        };
        let b = if k < i {
            k
        } else {
            k - 1
        };
        if j != i && k != i {
            assert(text_before(entries[a].key@, entries[b].key@));
        }
    }
    let old_map = states_by_name(entries).insert(entry.key@, entry.state@);
    let new_map = states_by_name(after);
    assert(after[i] == entry);
    lemma_states_by_name(after, i);
    assert forall|key: Seq<char>| old_map.dom().contains(key) <==> new_map.dom().contains(key) by {
        if new_map.dom().contains(key) {
            let j = choose|j: int| 0 <= j < after.len() && (#[trigger] after[j]).key@ == key;
            if j < i {
                assert(entries[j].key@ == key);
            } else if j > i {
                assert(entries[j - 1].key@ == key);
            }
        }
        if states_by_name(entries).dom().contains(key) {
            let j = choose|j: int| 0 <= j < entries.len() && (#[trigger] entries[j]).key@ == key;
            if j < i {
                assert(after[j].key@ == key);
            } else {
                assert(after[j + 1].key@ == key);
            }
        }
    }
    assert forall|key: Seq<char>| new_map.dom().contains(key) implies new_map[key]
        == old_map[key] by {
        let j = choose|j: int| 0 <= j < after.len() && (#[trigger] after[j]).key@ == key;
        lemma_states_by_name(after, j);
        if j < i {
            lemma_states_by_name(entries, j);
            lemma_before_is_total(after[j].key@, after[i].key@);
        } else if j > i {
            lemma_states_by_name(entries, j - 1);
            lemma_before_is_total(after[i].key@, after[j].key@);
        }
    }
    assert(new_map =~= old_map);
}

/// What is remembered of all repositories.
#[derive(Debug)]
pub struct PersistedState {
    pub repositories: RepoStates,
}

impl Default for PersistedState {
    fn default() -> (state: Self)
        ensures
            state.repositories@ == Map::<Seq<char>, RecordView>::empty(),
    {
        PersistedState { repositories: RepoStates::new() }
    }
}

impl PersistedState {
    /// Remembers a check that went well under the name of the repository.
    pub fn update_success(
        &mut self,
        name: &str,
        path: &str,
        time: &str,
        snapshot: &Snapshot,
        effective: &EffectiveReport,
    )
        ensures
            final(self).repositories@ == old(self).repositories@.insert(
                name@,
                success_record(name@, path@, time@, snapshot@, effective@),
            ),
    {
        let state = PersistedRepoState::success(name, path, time, snapshot, effective);
        self.repositories.insert(name.to_owned(), state);
    }

    /// Remembers a check that failed under the name of the repository.
    pub fn update_error(&mut self, name: &str, path: &str, time: &str, error: &str)
        ensures
            final(self).repositories@ == old(self).repositories@.insert(
                name@,
                error_record(name@, path@, time@, error@),
            ),
    {
        let state = PersistedRepoState::failure(name, path, time, error);
        self.repositories.insert(name.to_owned(), state);
    }
}

/// Where the last state is kept: where the configuration says, or at the
/// default place, with the tilde expanded.
pub fn state_file_path(config: &AppConfig, os: &str, home: Option<&str>) -> (path: String)
    ensures
        exists|raw: Seq<char>| #[trigger]
            is_expanded(raw, option_str(home), path@) && match config@.defaults.state_file {
                Some(file) => raw == file,
                None => is_default_path(
                    os@,
                    option_str(home),
                    "AppData/Local/repo-auto-puller/status.json"@,
                    "~/.local/state/repo-auto-puller/status.json"@,
                    raw,
                ),
            },
{
    let raw = match &config.defaults.state_file {
        Some(file) => file.clone(),
        None => default_state_file_path(os, home),
    };
    let path = expand_tilde(raw.as_str(), home);
    assert(is_expanded(raw@, option_str(home), path@));
    path
}

/// Where the history is kept: where the configuration says, or at the default
/// place, with the tilde expanded.
pub fn history_file_path(config: &AppConfig, os: &str, home: Option<&str>) -> (path: String)
    ensures
        exists|raw: Seq<char>| #[trigger]
            is_expanded(raw, option_str(home), path@) && match config@.defaults.history_file {
                Some(file) => raw == file,
                None => is_default_path(
                    os@,
                    option_str(home),
                    "AppData/Local/repo-auto-puller/history.jsonl"@,
                    "~/.local/state/repo-auto-puller/history.jsonl"@,
                    raw,
                ),
            },
{
    let raw = match &config.defaults.history_file {
        Some(file) => file.clone(),
        None => default_history_file_path(os, home),
    };
    let path = expand_tilde(raw.as_str(), home);
    assert(is_expanded(raw@, option_str(home), path@));
    path
}

/// What was remembered of a repository last is what is read of it, and what was
/// remembered of the others stays.
pub proof fn recorded_is_read(
    states: Map<Seq<char>, RecordView>,
    name: Seq<char>,
    record: RecordView,
    other: Seq<char>,
)
    ensures
        states.insert(name, record).dom().contains(name),
        states.insert(name, record)[name] == record,
        other != name ==> states.insert(name, record).dom().contains(other)
            == states.dom().contains(other) && states.insert(name, record)[other] == states[other],
{
}

/// What is recorded of a check that went well is what was found, field by field,
/// under the name and at the time of the check, and no error.
pub proof fn records_agree_with_snapshots(
    name: Seq<char>,
    path: Seq<char>,
    time: Seq<char>,
    snapshot: SnapshotView,
    effective: EffectiveView,
)
    ensures
        ({
            let record = success_record(name, path, time, snapshot, effective);
            &&& record.name == name && record.path == path && record.time == time
            &&& record.branch == Some(snapshot.branch)
            &&& record.upstream == Some(snapshot.upstream)
            &&& record.ahead == Some(snapshot.ahead)
            &&& record.behind == Some(snapshot.behind)
            &&& record.dirty == Some(snapshot.dirty)
            &&& record.decision == Some(effective.decision)
            &&& record.message == Some(effective.message)
            &&& record.level == effective.level
            &&& record.error is None
        }),
{
}

/// What is recorded of a check that failed is the error, under the name and at
/// the time of the check, and no state.
pub proof fn records_tell_errors(
    name: Seq<char>,
    path: Seq<char>,
    time: Seq<char>,
    error: Seq<char>,
)
    ensures
        ({
            let record = error_record(name, path, time, error);
            &&& record.name == name && record.path == path && record.time == time
            &&& record.error == Some(error)
            &&& record.level == "ERROR"@
            &&& record.branch is None && record.upstream is None
            &&& record.ahead is None && record.behind is None && record.dirty is None
            &&& record.decision is None && record.message is None
        }),
{
}

/// Whether two texts are the same up to a place, at which the first ends or has
/// the lesser character.
pub open spec fn differ_at(a: Seq<char>, b: Seq<char>, k: int) -> bool {
    &&& 0 <= k <= a.len()
    &&& k < b.len()
    &&& forall|j: int| 0 <= j < k ==> a[j] == b[j]
    &&& k == a.len() || a[k] < b[k]
}

/// A text comes before another exactly if it is less at the first place where
/// the two differ, or ends there.
pub proof fn texts_are_ordered_by_their_first_difference(a: Seq<char>, b: Seq<char>)
    ensures
        text_before(a, b) <==> exists|k: int| differ_at(a, b, k),
    decreases a.len(),
{
    if a.len() > 0 && b.len() > 0 && a[0] == b[0] {
        let c = a.drop_first();
        let d = b.drop_first();
        texts_are_ordered_by_their_first_difference(c, d);
        if text_before(c, d) {
            let k = choose|k: int| differ_at(c, d, k);
            assert forall|j: int| 0 <= j < k + 1 implies a[j] == b[j] by {
                if j > 0 {
                    assert(c[j - 1] == d[j - 1]);
                }
            }
            assert(differ_at(a, b, k + 1));
        }
        if exists|k: int| differ_at(a, b, k) {
            let k = choose|k: int| differ_at(a, b, k);
            assert forall|j: int| 0 <= j < k - 1 implies c[j] == d[j] by {
                assert(a[j + 1] == b[j + 1]);
            }
            assert(differ_at(c, d, k - 1));
        }
    } else if b.len() > 0 {
        if text_before(a, b) {
            assert(differ_at(a, b, 0));
        }
    }
}

/// The entries of a state are found under their names, one for each name, and
/// there are no others.
pub proof fn entries_are_found_by_name(entries: Seq<StateEntry>, i: int, key: Seq<char>)
    requires
        in_order(entries),
        0 <= i < entries.len(),
    ensures
        states_by_name(entries).dom().contains(entries[i].key@),
        states_by_name(entries)[entries[i].key@] == entries[i].state@,
        states_by_name(entries).dom().contains(key) ==> exists|j: int|
            0 <= j < entries.len() && (#[trigger] entries[j]).key@ == key,
{
    lemma_states_by_name(entries, i);
}

} // verus!
