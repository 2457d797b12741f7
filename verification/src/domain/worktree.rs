//! The state of a working tree, and what changed between two looks at it.

use crate::domain::ids::RepositoryId;
use crate::domain::repository::{RepositoryError, RepositoryErrorView};
use crate::domain::state::FileChange;
use crate::order::{in_order, lemma_in_order, sorted, Precedence};
use crate::registry::{lemma_filter_from, lemma_filter_into};
use crate::text::{
    joined, lemma_text_lt_irreflexive, lemma_text_lt_total, lemma_text_lt_transitive,
    same_optional_text, text_before, text_lt,
};
use crate::time::Timestamp;
use vstd::prelude::*;
use vstd::string::*;

verus! {

/// One file change, observed in a working tree or in a commit.
#[derive(Debug, PartialEq, Eq)]
pub struct FileChangeRecord {
    /// The repository in which it was observed.
    pub repository_id: RepositoryId,
    /// The changed path, relative to the repository, with forward slashes.
    pub path: String,
    /// The path before a rename or copy; absent for every other kind of change.
    pub old_path: Option<String>,
    /// What kind of change git reported.
    pub change_type: FileChange,
    /// Lines added, when they were counted.
    pub insertions: Option<u32>,
    /// Lines removed, when they were counted.
    pub deletions: Option<u32>,
    /// Tells one content of the file from another.
    pub fingerprint: String,
    /// The commit that the change is measured from.
    pub commit_sha: String,
    /// When it was observed.
    pub observed_at: Timestamp,
}

/// What a [`FileChangeRecord`] holds.
#[verifier::ext_equal]
pub struct FileChangeRecordView {
    pub repository_id: Seq<char>,
    pub path: Seq<char>,
    pub old_path: Option<Seq<char>>,
    pub change_type: FileChange,
    pub insertions: Option<u32>,
    pub deletions: Option<u32>,
    pub fingerprint: Seq<char>,
    pub commit_sha: Seq<char>,
    pub observed_at: Timestamp,
}

impl View for FileChangeRecord {
    type V = FileChangeRecordView;

    open spec fn view(&self) -> FileChangeRecordView {
        FileChangeRecordView {
            repository_id: self.repository_id.deep_view(),
            path: self.path.deep_view(),
            old_path: self.old_path.deep_view(),
            change_type: self.change_type,
            insertions: self.insertions,
            deletions: self.deletions,
            fingerprint: self.fingerprint.deep_view(),
            commit_sha: self.commit_sha.deep_view(),
            observed_at: self.observed_at,
        }
    }
}

impl DeepView for FileChangeRecord {
    type V = FileChangeRecordView;

    open spec fn deep_view(&self) -> FileChangeRecordView {
        self.view()
    }
}

impl Clone for FileChangeRecord {
    fn clone(&self) -> (r: Self)
        ensures
            r@ == self@,
    {
        let r: FileChangeRecord = FileChangeRecord {
            repository_id: self.repository_id.clone(),
            path: self.path.clone(),
            old_path: self.old_path.clone(),
            change_type: self.change_type,
            insertions: self.insertions,
            deletions: self.deletions,
            fingerprint: self.fingerprint.clone(),
            commit_sha: self.commit_sha.clone(),
            observed_at: self.observed_at,
        };
        r
    }
}

/// What makes two records the same change: the path, the path it came from, the
/// commit it is measured from and the content. The kind of change is left out: a
/// file that appears and is then edited is one path with two contents.
#[verifier::ext_equal]
pub struct ChangeIdentity {
    pub path: Seq<char>,
    pub old_path: Option<Seq<char>>,
    pub commit_sha: Seq<char>,
    pub fingerprint: Seq<char>,
}

/// The identity of a change.
pub open spec fn identity_of(r: FileChangeRecordView) -> ChangeIdentity {
    ChangeIdentity {
        path: r.path,
        old_path: r.old_path,
        commit_sha: r.commit_sha,
        fingerprint: r.fingerprint,
    }
}

/// A record of `s` is the same change as `r`.
pub open spec fn has_identity(s: Seq<FileChangeRecordView>, r: FileChangeRecordView) -> bool {
    exists|i: int| 0 <= i < s.len() && identity_of(#[trigger] s[i]) == identity_of(r)
}

/// The name of a kind of change.
pub open spec fn file_change_name(change: FileChange) -> Seq<char> {
    match change {
        FileChange::Added => "Added"@,
        FileChange::Modified => "Modified"@,
        FileChange::Deleted => "Deleted"@,
        FileChange::Renamed => "Renamed"@,
        FileChange::Copied => "Copied"@,
        FileChange::Untracked => "Untracked"@,
        FileChange::Conflicted => "Conflicted"@,
    }
}

/// The name of a kind of change.
fn file_change_text(change: FileChange) -> (r: &'static str)
    ensures
        r@ == file_change_name(change),
{
    match change {
        FileChange::Added => "Added",
        FileChange::Modified => "Modified",
        FileChange::Deleted => "Deleted",
        FileChange::Renamed => "Renamed",
        FileChange::Copied => "Copied",
        FileChange::Untracked => "Untracked",
        FileChange::Conflicted => "Conflicted",
    }
}

/// Why a kind of change and an old path do not go together, if they do not.
pub open spec fn incoherence(change: FileChange, has_old_path: bool) -> Option<Seq<char>> {
    if change.moves() && !has_old_path {
        Some(file_change_name(change) + " requires an old path"@)
    } else if !change.moves() && has_old_path {
        Some(file_change_name(change) + " must not carry an old path"@)
    } else {
        None
    }
}

impl FileChangeRecord {
    /// A record of a change. It carries an old path exactly when its kind is a
    /// rename or a copy.
    pub fn new(
        repository_id: RepositoryId,
        path: &str,
        old_path: Option<String>,
        change_type: FileChange,
        fingerprint: &str,
        commit_sha: &str,
        observed_at: Timestamp,
    ) -> (r: Result<Self, RepositoryError>)
        ensures
            match incoherence(change_type, old_path is Some) {
                Some(reason) => r is Err && r->Err_0@ == (RepositoryErrorView::MalformedChange {
                    path: path@,
                    reason,
                }),
                None => r is Ok && r->Ok_0@ == (FileChangeRecordView {
                    repository_id: repository_id@,
                    path: path@,
                    old_path: old_path.deep_view(),
                    change_type,
                    insertions: None,
                    deletions: None,
                    fingerprint: fingerprint@,
                    commit_sha: commit_sha@,
                    observed_at,
                }),
            },
    {
        if change_type.has_old_path() && old_path.is_none() {
            return Err(
                RepositoryError::MalformedChange {
                    path: path.to_owned(),
                    reason: joined(file_change_text(change_type), " requires an old path"),
                },
            );
        }
        if !change_type.has_old_path() && old_path.is_some() {
            return Err(
                RepositoryError::MalformedChange {
                    path: path.to_owned(),
                    reason: joined(file_change_text(change_type), " must not carry an old path"),
                },
            );
        }
        Ok(
            FileChangeRecord {
                repository_id,
                path: path.to_owned(),
                old_path,
                change_type,
                insertions: None,
                deletions: None,
                fingerprint: fingerprint.to_owned(),
                commit_sha: commit_sha.to_owned(),
                observed_at,
            },
        )
    }

    /// The record, with line counts.
    pub fn with_line_counts(self, insertions: u32, deletions: u32) -> (r: Self)
        ensures
            r@ == (FileChangeRecordView {
                insertions: Some(insertions),
                deletions: Some(deletions),
                ..self@
            }),
    {
        FileChangeRecord { insertions: Some(insertions), deletions: Some(deletions), ..self }
    }

    /// Whether two records are the same change.
    pub fn same_change(&self, other: &FileChangeRecord) -> (r: bool)
        ensures
            r == (identity_of(self@) == identity_of(other@)),
    {
        self.path == other.path && same_optional_text(&self.old_path, &other.old_path)
            && self.commit_sha == other.commit_sha && self.fingerprint == other.fingerprint
    }
}

/// Whether a record of `changes` is the same change as `record`.
pub fn is_recorded(changes: &Vec<FileChangeRecord>, record: &FileChangeRecord) -> (r: bool)
    ensures
        r == has_identity(changes.deep_view(), record@),
{
    let mut i: usize = 0;
    while i < changes.len()
        invariant
            i <= changes.len(),
            forall|j: int|
                0 <= j < i ==> identity_of(#[trigger] changes.deep_view()[j]) != identity_of(
                    record@,
                ),
        decreases changes.len() - i,
    {
        assert(changes.deep_view()[i as int] == changes@[i as int]@);
        if changes[i].same_change(record) {
            return true;
        }
        i += 1;
    }
    false
}

/// A working tree at one moment, its changes parted by kind.
#[derive(Debug, PartialEq, Eq)]
pub struct WorktreeState {
    /// True when every list below is empty.
    pub clean: bool,
    /// Tracked files that changed.
    pub modified: Vec<FileChangeRecord>,
    /// Files that git did not track before.
    pub added: Vec<FileChangeRecord>,
    /// Files that were removed.
    pub deleted: Vec<FileChangeRecord>,
    /// Files at a new path.
    pub renamed: Vec<FileChangeRecord>,
    /// Files copied to a new path.
    pub copied: Vec<FileChangeRecord>,
    /// Files that git does not track.
    pub untracked: Vec<FileChangeRecord>,
}

/// What a [`WorktreeState`] holds.
#[verifier::ext_equal]
pub struct WorktreeStateView {
    pub clean: bool,
    pub modified: Seq<FileChangeRecordView>,
    pub added: Seq<FileChangeRecordView>,
    pub deleted: Seq<FileChangeRecordView>,
    pub renamed: Seq<FileChangeRecordView>,
    pub copied: Seq<FileChangeRecordView>,
    pub untracked: Seq<FileChangeRecordView>,
}

impl View for WorktreeState {
    type V = WorktreeStateView;

    open spec fn view(&self) -> WorktreeStateView {
        WorktreeStateView {
            clean: self.clean,
            modified: self.modified.deep_view(),
            added: self.added.deep_view(),
            deleted: self.deleted.deep_view(),
            renamed: self.renamed.deep_view(),
            copied: self.copied.deep_view(),
            untracked: self.untracked.deep_view(),
        }
    }
}

impl DeepView for WorktreeState {
    type V = WorktreeStateView;

    open spec fn deep_view(&self) -> WorktreeStateView {
        self.view()
    }
}

impl Clone for WorktreeState {
    fn clone(&self) -> (r: Self)
        ensures
            r@ == self@,
    {
        let r: WorktreeState = WorktreeState {
            clean: self.clean,
            modified: self.modified.clone(),
            added: self.added.clone(),
            deleted: self.deleted.clone(),
            renamed: self.renamed.clone(),
            copied: self.copied.clone(),
            untracked: self.untracked.clone(),
        };
        assert(r.modified.deep_view() =~= self.modified.deep_view());
        assert(r.added.deep_view() =~= self.added.deep_view());
        assert(r.deleted.deep_view() =~= self.deleted.deep_view());
        assert(r.renamed.deep_view() =~= self.renamed.deep_view());
        assert(r.copied.deep_view() =~= self.copied.deep_view());
        assert(r.untracked.deep_view() =~= self.untracked.deep_view());
        r
    }
}

impl WorktreeStateView {
    /// All changes, list by list.
    pub open spec fn listed(self) -> Seq<FileChangeRecordView> {
        self.modified + self.added + self.deleted + self.renamed + self.copied + self.untracked
    }

    /// The tree is marked clean exactly when nothing changed.
    pub open spec fn well_formed(self) -> bool {
        self.clean <==> self.listed().len() == 0
    }
}

/// Records by path.
pub struct ByPath;

impl<'a> Precedence<&'a FileChangeRecord> for ByPath {
    open spec fn before(a: FileChangeRecordView, b: FileChangeRecordView) -> bool {
        text_lt(a.path, b.path)
    }

    proof fn weak_order(
        a: FileChangeRecordView,
        b: FileChangeRecordView,
        c: FileChangeRecordView,
    ) {
        let (x, y, z) = (a.path, b.path, c.path);
        lemma_text_lt_irreflexive(x);
        if text_lt(x, y) && text_lt(y, x) {
            lemma_text_lt_transitive(x, y, x);
        }
        if !text_lt(y, x) && !text_lt(z, y) && text_lt(z, x) {
            lemma_text_lt_total(x, y);
            lemma_text_lt_total(y, z);
            if text_lt(x, y) {
                lemma_text_lt_transitive(z, x, y);
            }
        }
    }

    fn is_before(a: &&'a FileChangeRecord, b: &&'a FileChangeRecord) -> (r: bool) {
        text_before(a.path.as_str(), b.path.as_str())
    }
}

/// A change is of one kind.
pub open spec fn is_kind(kind: FileChange) -> spec_fn(FileChangeRecordView) -> bool {
    |r: FileChangeRecordView| r.change_type == kind
}

/// A change is listed as a modification: a conflict is one that must be resolved,
/// and is never left out.
pub open spec fn is_modification() -> spec_fn(FileChangeRecordView) -> bool {
    |r: FileChangeRecordView|
        r.change_type == FileChange::Modified || r.change_type == FileChange::Conflicted
}

/// A working tree with these changes.
pub open spec fn parted(changes: Seq<FileChangeRecordView>) -> WorktreeStateView {
    WorktreeStateView {
        clean: changes.len() == 0,
        modified: changes.filter(is_modification()),
        added: changes.filter(is_kind(FileChange::Added)),
        deleted: changes.filter(is_kind(FileChange::Deleted)),
        renamed: changes.filter(is_kind(FileChange::Renamed)),
        copied: changes.filter(is_kind(FileChange::Copied)),
        untracked: changes.filter(is_kind(FileChange::Untracked)),
    }
}

/// Changes by path; where paths are equal, as they came.
pub open spec fn by_path(changes: Seq<FileChangeRecordView>) -> Seq<FileChangeRecordView> {
    in_order::<&FileChangeRecord, ByPath>(changes)
}

/// A tree with each of its lists in the order of paths.
pub open spec fn lists_by_path(w: WorktreeStateView) -> WorktreeStateView {
    WorktreeStateView {
        clean: w.clean,
        modified: by_path(w.modified),
        added: by_path(w.added),
        deleted: by_path(w.deleted),
        renamed: by_path(w.renamed),
        copied: by_path(w.copied),
        untracked: by_path(w.untracked),
    }
}

/// All changes of a tree: list by list, and by path within a list.
pub open spec fn ordered_changes(w: WorktreeStateView) -> Seq<FileChangeRecordView> {
    lists_by_path(w).listed()
}

/// Some change of `changes` is the same change as `r` and of the same kind.
pub open spec fn stands_in(r: FileChangeRecordView, changes: Seq<FileChangeRecordView>) -> bool {
    exists|i: int|
        0 <= i < changes.len() && identity_of(#[trigger] changes[i]) == identity_of(r)
            && changes[i].change_type == r.change_type
}

/// Every change of `a` stands in `b`.
pub open spec fn all_stand_in(a: Seq<FileChangeRecordView>, b: Seq<FileChangeRecordView>) -> bool {
    forall|i: int| 0 <= i < a.len() ==> stands_in(#[trigger] a[i], b)
}

/// No file entered or left one of two trees, or changed its state between them.
pub open spec fn same_changes(a: WorktreeStateView, b: WorktreeStateView) -> bool {
    all_stand_in(a.listed(), b.listed()) && all_stand_in(b.listed(), a.listed())
}

/// The changes of `current` that were not there in `previous`, list by list and by
/// path within a list.
pub open spec fn fresh_changes(current: WorktreeStateView, previous: WorktreeStateView) -> Seq<
    FileChangeRecordView,
> {
    ordered_changes(current).filter(
        |r: FileChangeRecordView| !has_identity(ordered_changes(previous), r),
    )
}

/// Appends references to all of `from` to `to`.
fn append_refs<'a>(to: &mut Vec<&'a FileChangeRecord>, from: &'a Vec<FileChangeRecord>)
    ensures
        final(to).deep_view() == old(to).deep_view() + from.deep_view(),
{
    let ghost start = to.deep_view();
    let mut i: usize = 0;
    assert(from.deep_view().take(0) =~= Seq::empty());
    assert(to.deep_view() =~= start + from.deep_view().take(0));
    while i < from.len()
        invariant
            i <= from.len(),
            to.deep_view() == start + from.deep_view().take(i as int),
        decreases from.len() - i,
    {
        let ghost before = to.deep_view();
        to.push(&from[i]);
        assert(to.deep_view() =~= before.push(from.deep_view()[i as int]));
        assert(from.deep_view().take(i + 1) =~= from.deep_view().take(i as int).push(
            from.deep_view()[i as int],
        ));
        i += 1;
        assert(to.deep_view() =~= start + from.deep_view().take(i as int));
    }
    assert(from.deep_view().take(from.deep_view().len() as int) =~= from.deep_view());
}

/// Appends references to all of `from` to `to`, by path.
fn append_by_path<'a>(to: &mut Vec<&'a FileChangeRecord>, from: &'a Vec<FileChangeRecord>)
    ensures
        final(to).deep_view() == old(to).deep_view() + by_path(from.deep_view()),
{
    let ghost start = to.deep_view();
    let mut refs: Vec<&'a FileChangeRecord> = Vec::new();
    assert(refs.deep_view() =~= Seq::empty());
    append_refs(&mut refs, from);
    assert(refs.deep_view() =~= from.deep_view());
    let mut ordered: Vec<&'a FileChangeRecord> = sorted::<&FileChangeRecord, ByPath>(refs);
    let ghost added = ordered.deep_view();
    to.append(&mut ordered);
    assert(to.deep_view() =~= start + added);
}

/// Whether every change of `a` stands in `b`.
fn all_found(a: &Vec<&FileChangeRecord>, b: &Vec<&FileChangeRecord>) -> (r: bool)
    ensures
        r == all_stand_in(a.deep_view(), b.deep_view()),
{
    let ghost (s, t) = (a.deep_view(), b.deep_view());
    let mut i: usize = 0;
    while i < a.len()
        invariant
            i <= a.len(),
            s == a.deep_view(),
            t == b.deep_view(),
            forall|k: int| 0 <= k < i ==> stands_in(#[trigger] s[k], t),
        decreases a.len() - i,
    {
        let mut found: bool = false;
        let mut j: usize = 0;
        assert(s[i as int] == a@[i as int]@);
        while j < b.len() && !found
            invariant
                i < a.len(),
                j <= b.len(),
                t == b.deep_view(),
                s == a.deep_view(),
                s[i as int] == a@[i as int]@,
                found ==> stands_in(s[i as int], t),
                !found ==> forall|k: int|
                    0 <= k < j ==> !(identity_of(#[trigger] t[k]) == identity_of(s[i as int])
                        && t[k].change_type == s[i as int].change_type),
            decreases b.len() - j,
        {
            assert(t[j as int] == b@[j as int]@);
            if b[j].same_change(a[i]) && b[j].change_type == a[i].change_type {
                found = true;
            }
            j += 1;
        }
        if !found {
            assert(!stands_in(s[i as int], t));
            return false;
        }
        i += 1;
    }
    true
}

/// One more element at the end of a filtered sequence.
proof fn lemma_filter_step<A>(s: Seq<A>, n: int, p: spec_fn(A) -> bool)
    requires
        0 <= n < s.len(),
    ensures
        s.take(n + 1).filter(p) == (if p(s[n]) {
            s.take(n).filter(p).push(s[n])
        } else {
            s.take(n).filter(p)
        }),
{
    reveal(Seq::filter);
    assert(s.take(n + 1).drop_last() =~= s.take(n));
}

/// Nothing is left of nothing.
proof fn lemma_filter_nothing<A>(s: Seq<A>, p: spec_fn(A) -> bool)
    requires
        s.len() == 0,
    ensures
        s.filter(p) == Seq::<A>::empty(),
{
    reveal(Seq::filter);
    assert(s.filter(p) =~= Seq::<A>::empty());
}

/// No changes make no lists.
proof fn lemma_parted_nothing(s: Seq<FileChangeRecordView>)
    requires
        s.len() == 0,
    ensures
        parted(s) == (WorktreeStateView {
            clean: true,
            modified: Seq::empty(),
            added: Seq::empty(),
            deleted: Seq::empty(),
            renamed: Seq::empty(),
            copied: Seq::empty(),
            untracked: Seq::empty(),
        }),
{
    lemma_filter_nothing(s, is_modification());
    lemma_filter_nothing(s, is_kind(FileChange::Added));
    lemma_filter_nothing(s, is_kind(FileChange::Deleted));
    lemma_filter_nothing(s, is_kind(FileChange::Renamed));
    lemma_filter_nothing(s, is_kind(FileChange::Copied));
    lemma_filter_nothing(s, is_kind(FileChange::Untracked));
}

impl Default for WorktreeState {
    /// A tree in which nothing changed.
    fn default() -> (r: Self)
        ensures
            r@ == parted(Seq::empty()),
    {
        WorktreeState::from_changes(Vec::new())
    }
}

impl WorktreeState {
    /// Parts raw changes by their kind. Whether the tree is clean is derived, so
    /// that it never disagrees with the lists.
    pub fn from_changes(changes: Vec<FileChangeRecord>) -> (r: Self)
        ensures
            r@ == parted(changes.deep_view()),
    {
        let ghost all = changes.deep_view();
        let mut r: WorktreeState = WorktreeState {
            clean: changes.len() == 0,
            modified: Vec::new(),
            added: Vec::new(),
            deleted: Vec::new(),
            renamed: Vec::new(),
            copied: Vec::new(),
            untracked: Vec::new(),
        };
        proof {
            lemma_parted_nothing(all.take(0));
            assert(r.modified.deep_view() =~= Seq::empty());
            assert(r.added.deep_view() =~= Seq::empty());
            assert(r.deleted.deep_view() =~= Seq::empty());
            assert(r.renamed.deep_view() =~= Seq::empty());
            assert(r.copied.deep_view() =~= Seq::empty());
            assert(r.untracked.deep_view() =~= Seq::empty());
        }
        for record in it: changes.into_iter()
            invariant
                it.seq() == changes@,
                all == changes.deep_view(),
                r.clean == (all.len() == 0),
                r@ == (WorktreeStateView {
                    clean: all.len() == 0,
                    ..parted(all.take(it.index() as int))
                }),
        {
            let ghost n = it.index() as int;
            let ghost before = r@;
            let ghost x = record@;
            proof {
                assert(all[n] == x);
                lemma_kinds_step(all, n);
            }
            match record.change_type {
                FileChange::Modified | FileChange::Conflicted => {
                    r.modified.push(record);
                    assert(r.modified.deep_view() =~= before.modified.push(x));
                },
                FileChange::Added => {
                    r.added.push(record);
                    assert(r.added.deep_view() =~= before.added.push(x));
                },
                FileChange::Deleted => {
                    r.deleted.push(record);
                    assert(r.deleted.deep_view() =~= before.deleted.push(x));
                },
                FileChange::Renamed => {
                    r.renamed.push(record);
                    assert(r.renamed.deep_view() =~= before.renamed.push(x));
                },
                FileChange::Copied => {
                    r.copied.push(record);
                    assert(r.copied.deep_view() =~= before.copied.push(x));
                },
                FileChange::Untracked => {
                    r.untracked.push(record);
                    assert(r.untracked.deep_view() =~= before.untracked.push(x));
                },
            }
        }
        assert(all.take(all.len() as int) =~= all);
        r
    }

    /// Every change: list by list, and by path within a list.
    pub fn all_changes(&self) -> (r: Vec<&FileChangeRecord>)
        ensures
            r.deep_view() == ordered_changes(self@),
    {
        let mut all: Vec<&FileChangeRecord> = Vec::new();
        assert(all.deep_view() =~= Seq::empty());
        append_by_path(&mut all, &self.modified);
        append_by_path(&mut all, &self.added);
        append_by_path(&mut all, &self.deleted);
        append_by_path(&mut all, &self.renamed);
        append_by_path(&mut all, &self.copied);
        append_by_path(&mut all, &self.untracked);
        assert(all.deep_view() =~= ordered_changes(self@));
        all
    }

    /// Whether two trees hold the same changes: no file entered or left, or changed
    /// its state.
    pub fn has_same_changes(&self, other: &WorktreeState) -> (r: bool)
        ensures
            r == same_changes(self@, other@),
    {
        let mine: Vec<&FileChangeRecord> = self.all_changes();
        let theirs: Vec<&FileChangeRecord> = other.all_changes();
        proof {
            lemma_all_stand_in_ordered(self@, other@);
            lemma_all_stand_in_ordered(other@, self@);
        }
        all_found(&mine, &theirs) && all_found(&theirs, &mine)
    }

    /// The changes that were not there in `previous`.
    ///
    /// A path that was dirty and still is, with the same content and measured
    /// from the same commit, is not reported again; and a path that was dirty and
    /// is clean now is not reported at all: it was most likely committed.
    pub fn new_changes(&self, previous: &WorktreeState) -> (r: Vec<FileChangeRecord>)
        ensures
            r.deep_view() == fresh_changes(self@, previous@),
    {
        let current: Vec<&FileChangeRecord> = self.all_changes();
        let prior: Vec<&FileChangeRecord> = previous.all_changes();
        let ghost all = current.deep_view();
        let ghost p = |r: FileChangeRecordView| !has_identity(ordered_changes(previous@), r);
        let mut r: Vec<FileChangeRecord> = Vec::new();
        let mut i: usize = 0;
        proof {
            lemma_filter_nothing(all.take(0), p);
            assert(r.deep_view() =~= Seq::empty());
        }
        while i < current.len()
            invariant
                i <= current.len(),
                all == current.deep_view(),
                prior.deep_view() == ordered_changes(previous@),
                p == (|r: FileChangeRecordView| !has_identity(ordered_changes(previous@), r)),
                r.deep_view() == all.take(i as int).filter(p),
            decreases current.len() - i,
        {
            let ghost before = r.deep_view();
            let record: &FileChangeRecord = current[i];
            assert(all[i as int] == record@);
            let mut known: bool = false;
            let mut j: usize = 0;
            while j < prior.len() && !known
                invariant
                    j <= prior.len(),
                    prior.deep_view() == ordered_changes(previous@),
                    known ==> has_identity(ordered_changes(previous@), record@),
                    !known ==> forall|k: int|
                        0 <= k < j ==> identity_of(#[trigger] prior.deep_view()[k])
                            != identity_of(record@),
                decreases prior.len() - j,
            {
                assert(prior.deep_view()[j as int] == prior@[j as int]@);
                if prior[j].same_change(record) {
                    known = true;
                }
                j += 1;
            }
            proof {
                lemma_filter_step(all, i as int, p);
            }
            if !known {
                assert(p(record@));
                r.push(record.clone());
                assert(r.deep_view() =~= before.push(record@));
            }
            i += 1;
        }
        assert(all.take(all.len() as int) =~= all);
        r
    }
}

/// How one more change moves each list.
proof fn lemma_kinds_step(all: Seq<FileChangeRecordView>, n: int)
    requires
        0 <= n < all.len(),
    ensures
        ({
            let a = parted(all.take(n));
            let b = parted(all.take(n + 1));
            let x = all[n];
            let k = x.change_type;
            &&& b.modified == (if k == FileChange::Modified || k == FileChange::Conflicted {
                a.modified.push(x)
            } else {
                a.modified
            })
            &&& b.added == (if k == FileChange::Added {
                a.added.push(x)
            } else {
                a.added
            })
            &&& b.deleted == (if k == FileChange::Deleted {
                a.deleted.push(x)
            } else {
                a.deleted
            })
            &&& b.renamed == (if k == FileChange::Renamed {
                a.renamed.push(x)
            } else {
                a.renamed
            })
            &&& b.copied == (if k == FileChange::Copied {
                a.copied.push(x)
            } else {
                a.copied
            })
            &&& b.untracked == (if k == FileChange::Untracked {
                a.untracked.push(x)
            } else {
                a.untracked
            })
        }),
{
    lemma_filter_step(all, n, is_modification());
    lemma_filter_step(all, n, is_kind(FileChange::Added));
    lemma_filter_step(all, n, is_kind(FileChange::Deleted));
    lemma_filter_step(all, n, is_kind(FileChange::Renamed));
    lemma_filter_step(all, n, is_kind(FileChange::Copied));
    lemma_filter_step(all, n, is_kind(FileChange::Untracked));
}

/// Parting changes by kind loses none and invents none.
pub proof fn law_parting_loses_nothing(changes: Seq<FileChangeRecordView>)
    ensures
        parted(changes).listed().len() == changes.len(),
        forall|r: FileChangeRecordView|
            parted(changes).listed().contains(r) <==> changes.contains(r),
    decreases changes.len(),
{
    lemma_parted_len(changes);
    let w = parted(changes);
    assert forall|r: FileChangeRecordView| w.listed().contains(r) <==> changes.contains(r) by {
        lemma_listed_contains(w, r);
        if changes.contains(r) {
            lemma_parted_into(changes, r);
        }
        if w.listed().contains(r) {
            lemma_parted_from(changes, r);
        }
    }
}

proof fn lemma_parted_len(changes: Seq<FileChangeRecordView>)
    ensures
        parted(changes).listed().len() == changes.len(),
    decreases changes.len(),
{
    if changes.len() == 0 {
        lemma_parted_nothing(changes);
    } else {
        let n = changes.len() - 1;
        assert(changes.take(n + 1) =~= changes);
        assert(changes.take(n) =~= changes.drop_last());
        lemma_parted_len(changes.drop_last());
        lemma_kinds_step(changes, n);
    }
}

proof fn lemma_listed_contains(w: WorktreeStateView, r: FileChangeRecordView)
    ensures
        w.listed().contains(r) <==> {
            ||| w.modified.contains(r)
            ||| w.added.contains(r)
            ||| w.deleted.contains(r)
            ||| w.renamed.contains(r)
            ||| w.copied.contains(r)
            ||| w.untracked.contains(r)
        },
{
    let a = w.modified + w.added;
    let b = a + w.deleted;
    let c = b + w.renamed;
    let d = c + w.copied;
    assert(w.listed() =~= d + w.untracked);
    vstd::seq_lib::lemma_seq_concat_contains_all_elements(w.modified, w.added, r);
    vstd::seq_lib::lemma_seq_concat_contains_all_elements(a, w.deleted, r);
    vstd::seq_lib::lemma_seq_concat_contains_all_elements(b, w.renamed, r);
    vstd::seq_lib::lemma_seq_concat_contains_all_elements(c, w.copied, r);
    vstd::seq_lib::lemma_seq_concat_contains_all_elements(d, w.untracked, r);
}

proof fn lemma_parted_into(changes: Seq<FileChangeRecordView>, r: FileChangeRecordView)
    requires
        changes.contains(r),
    ensures
        parted(changes).listed().contains(r),
{
    let w = parted(changes);
    lemma_listed_contains(w, r);
    match r.change_type {
        FileChange::Modified => lemma_filter_into(changes, is_modification(), r),
        FileChange::Conflicted => lemma_filter_into(changes, is_modification(), r),
        FileChange::Added => lemma_filter_into(changes, is_kind(FileChange::Added), r),
        FileChange::Deleted => lemma_filter_into(changes, is_kind(FileChange::Deleted), r),
        FileChange::Renamed => lemma_filter_into(changes, is_kind(FileChange::Renamed), r),
        FileChange::Copied => lemma_filter_into(changes, is_kind(FileChange::Copied), r),
        FileChange::Untracked => lemma_filter_into(changes, is_kind(FileChange::Untracked), r),
    }
    assert(r.change_type == FileChange::Added ==> w.added.contains(r));
    assert(r.change_type == FileChange::Deleted ==> w.deleted.contains(r));
    assert(r.change_type == FileChange::Renamed ==> w.renamed.contains(r));
    assert(r.change_type == FileChange::Copied ==> w.copied.contains(r));
    assert(r.change_type == FileChange::Untracked ==> w.untracked.contains(r));
}

proof fn lemma_parted_from(changes: Seq<FileChangeRecordView>, r: FileChangeRecordView)
    requires
        parted(changes).listed().contains(r),
    ensures
        changes.contains(r),
{
    let w = parted(changes);
    lemma_listed_contains(w, r);
    if w.modified.contains(r) {
        lemma_filter_from(changes, is_modification(), r);
    } else if w.added.contains(r) {
        lemma_filter_from(changes, is_kind(FileChange::Added), r);
    } else if w.deleted.contains(r) {
        lemma_filter_from(changes, is_kind(FileChange::Deleted), r);
    } else if w.renamed.contains(r) {
        lemma_filter_from(changes, is_kind(FileChange::Renamed), r);
    } else if w.copied.contains(r) {
        lemma_filter_from(changes, is_kind(FileChange::Copied), r);
    } else {
        lemma_filter_from(changes, is_kind(FileChange::Untracked), r);
    }
}

/// A tree is marked clean exactly when none of its lists holds a change.
pub proof fn law_clean_agrees_with_the_lists(changes: Seq<FileChangeRecordView>)
    ensures
        parted(changes).well_formed(),
{
    lemma_parted_len(changes);
}

/// A change is new exactly when it is there now and was not there before.
pub proof fn law_new_changes_are_exactly_the_new_ones(
    current: WorktreeStateView,
    previous: WorktreeStateView,
    r: FileChangeRecordView,
)
    ensures
        fresh_changes(current, previous).contains(r) <==> {
            &&& current.listed().contains(r)
            &&& !has_identity(previous.listed(), r)
        },
{
    let p = |r: FileChangeRecordView| !has_identity(ordered_changes(previous), r);
    law_ordering_loses_nothing(current, r);
    lemma_identity_by_path(previous, r);
    if fresh_changes(current, previous).contains(r) {
        lemma_filter_from(ordered_changes(current), p, r);
    }
    if current.listed().contains(r) && !has_identity(previous.listed(), r) {
        lemma_filter_into(ordered_changes(current), p, r);
    }
}

/// Putting the lists in order loses no change and invents none.
pub proof fn law_ordering_loses_nothing(w: WorktreeStateView, r: FileChangeRecordView)
    ensures
        ordered_changes(w).len() == w.listed().len(),
        ordered_changes(w).contains(r) <==> w.listed().contains(r),
{
    lemma_in_order::<&FileChangeRecord, ByPath>(w.modified);
    lemma_in_order::<&FileChangeRecord, ByPath>(w.added);
    lemma_in_order::<&FileChangeRecord, ByPath>(w.deleted);
    lemma_in_order::<&FileChangeRecord, ByPath>(w.renamed);
    lemma_in_order::<&FileChangeRecord, ByPath>(w.copied);
    lemma_in_order::<&FileChangeRecord, ByPath>(w.untracked);
    lemma_listed_contains(w, r);
    lemma_listed_contains(lists_by_path(w), r);
}

/// Putting the lists in order does not change which changes are recorded.
proof fn lemma_identity_by_path(w: WorktreeStateView, r: FileChangeRecordView)
    ensures
        has_identity(ordered_changes(w), r) == has_identity(w.listed(), r),
{
    let a = ordered_changes(w);
    let b = w.listed();
    if has_identity(a, r) {
        let i = choose|i: int| 0 <= i < a.len() && identity_of(#[trigger] a[i]) == identity_of(r);
        law_ordering_loses_nothing(w, a[i]);
        assert(a.contains(a[i]));
        let j = choose|j: int| 0 <= j < b.len() && b[j] == a[i];
        assert(identity_of(b[j]) == identity_of(r));
    }
    if has_identity(b, r) {
        let i = choose|i: int| 0 <= i < b.len() && identity_of(#[trigger] b[i]) == identity_of(r);
        law_ordering_loses_nothing(w, b[i]);
        assert(b.contains(b[i]));
        let j = choose|j: int| 0 <= j < a.len() && a[j] == b[i];
        assert(identity_of(a[j]) == identity_of(r));
    }
}

/// A change stands in another sequence of the same changes.
proof fn lemma_stands_in_same(
    r: FileChangeRecordView,
    a: Seq<FileChangeRecordView>,
    b: Seq<FileChangeRecordView>,
)
    requires
        stands_in(r, a),
        forall|x: FileChangeRecordView| a.contains(x) ==> b.contains(x),
    ensures
        stands_in(r, b),
{
    let i = choose|i: int|
        0 <= i < a.len() && identity_of(#[trigger] a[i]) == identity_of(r) && a[i].change_type
            == r.change_type;
    assert(a.contains(a[i]));
    let j = choose|j: int| 0 <= j < b.len() && b[j] == a[i];
    assert(identity_of(b[j]) == identity_of(r));
}

/// Putting the lists in order does not change whether changes stand in a tree.
proof fn lemma_all_stand_in_ordered(a: WorktreeStateView, b: WorktreeStateView)
    ensures
        all_stand_in(ordered_changes(a), ordered_changes(b)) == all_stand_in(
            a.listed(),
            b.listed(),
        ),
{
    let (s, t) = (ordered_changes(a), ordered_changes(b));
    assert forall|x: FileChangeRecordView| s.contains(x) <==> a.listed().contains(x) by {
        law_ordering_loses_nothing(a, x);
    }
    assert forall|x: FileChangeRecordView| t.contains(x) <==> b.listed().contains(x) by {
        law_ordering_loses_nothing(b, x);
    }
    if all_stand_in(s, t) {
        assert forall|i: int| 0 <= i < a.listed().len() implies stands_in(
            #[trigger] a.listed()[i],
            b.listed(),
        ) by {
            let x = a.listed()[i];
            law_ordering_loses_nothing(a, x);
            assert(a.listed().contains(x));
            let j = choose|j: int| 0 <= j < s.len() && s[j] == x;
            assert(stands_in(s[j], t));
            lemma_stands_in_same(x, t, b.listed());
        }
    }
    if all_stand_in(a.listed(), b.listed()) {
        assert forall|i: int| 0 <= i < s.len() implies stands_in(#[trigger] s[i], t) by {
            let x = s[i];
            assert(s.contains(x));
            let j = choose|j: int| 0 <= j < a.listed().len() && a.listed()[j] == x;
            assert(stands_in(a.listed()[j], b.listed()));
            lemma_stands_in_same(x, b.listed(), t);
        }
    }
}

/// Trees with the same changes have no new ones.
pub proof fn law_same_changes_are_not_new(current: WorktreeStateView, previous: WorktreeStateView)
    requires
        same_changes(current, previous),
    ensures
        fresh_changes(current, previous).len() == 0,
        current.listed().len() == 0 <==> previous.listed().len() == 0,
{
    if fresh_changes(current, previous).len() > 0 {
        let r = fresh_changes(current, previous)[0];
        assert(fresh_changes(current, previous).contains(r));
        law_new_changes_are_exactly_the_new_ones(current, previous, r);
        let i = choose|i: int| 0 <= i < current.listed().len() && current.listed()[i] == r;
        assert(stands_in(current.listed()[i], previous.listed()));
    }
    if current.listed().len() > 0 {
        assert(stands_in(current.listed()[0], previous.listed()));
    }
    if previous.listed().len() > 0 {
        assert(stands_in(previous.listed()[0], current.listed()));
    }
}

/// A tree has the same changes as itself.
pub proof fn law_a_tree_has_its_own_changes(w: WorktreeStateView)
    ensures
        same_changes(w, w),
{
    assert forall|i: int| 0 <= i < w.listed().len() implies stands_in(
        #[trigger] w.listed()[i],
        w.listed(),
    ) by {
        assert(identity_of(w.listed()[i]) == identity_of(w.listed()[i]));
    }
}

/// Looking twice at the same tree finds nothing new.
pub proof fn law_unchanged_tree_has_no_new_changes(w: WorktreeStateView)
    ensures
        fresh_changes(w, w).len() == 0,
{
    if fresh_changes(w, w).len() > 0 {
        let r = fresh_changes(w, w)[0];
        assert(fresh_changes(w, w).contains(r));
        law_new_changes_are_exactly_the_new_ones(w, w, r);
        let i = choose|i: int| 0 <= i < w.listed().len() && w.listed()[i] == r;
        assert(identity_of(w.listed()[i]) == identity_of(r));
    }
}

/// A tree that became clean has no new changes: what was committed is not
/// reported as deleted.
pub proof fn law_clean_tree_has_no_new_changes(
    current: WorktreeStateView,
    previous: WorktreeStateView,
)
    requires
        current.listed().len() == 0,
    ensures
        fresh_changes(current, previous).len() == 0,
{
    if fresh_changes(current, previous).len() > 0 {
        let r = fresh_changes(current, previous)[0];
        assert(fresh_changes(current, previous).contains(r));
        law_new_changes_are_exactly_the_new_ones(current, previous, r);
    }
}

/// The kind of change plays no part in telling changes apart.
pub proof fn law_identity_ignores_the_kind(r: FileChangeRecordView, kind: FileChange)
    ensures
        identity_of((FileChangeRecordView { change_type: kind, ..r })) == identity_of(r),
{
}

/// What a diff says of one file.
#[derive(Debug, PartialEq, Eq)]
pub struct DiffInfo {
    /// The path before the change, for a rename or a copy.
    pub old_path: Option<String>,
    /// The path after it.
    pub new_path: String,
    /// What kind of change it is.
    pub change_type: FileChange,
    /// Lines added.
    pub insertions: u32,
    /// Lines removed.
    pub deletions: u32,
    /// The commit that it is measured from.
    pub commit_sha: String,
    /// The branch on which it was observed, if known.
    pub branch: Option<String>,
    /// When it was observed.
    pub observed_at: Timestamp,
}

/// What a [`DiffInfo`] holds.
#[verifier::ext_equal]
pub struct DiffInfoView {
    pub old_path: Option<Seq<char>>,
    pub new_path: Seq<char>,
    pub change_type: FileChange,
    pub insertions: u32,
    pub deletions: u32,
    pub commit_sha: Seq<char>,
    pub branch: Option<Seq<char>>,
    pub observed_at: Timestamp,
}

impl View for DiffInfo {
    type V = DiffInfoView;

    open spec fn view(&self) -> DiffInfoView {
        DiffInfoView {
            old_path: self.old_path.deep_view(),
            new_path: self.new_path.deep_view(),
            change_type: self.change_type,
            insertions: self.insertions,
            deletions: self.deletions,
            commit_sha: self.commit_sha.deep_view(),
            branch: self.branch.deep_view(),
            observed_at: self.observed_at,
        }
    }
}

impl DeepView for DiffInfo {
    type V = DiffInfoView;

    open spec fn deep_view(&self) -> DiffInfoView {
        self.view()
    }
}

impl Clone for DiffInfo {
    fn clone(&self) -> (r: Self)
        ensures
            r@ == self@,
    {
        let r: DiffInfo = DiffInfo {
            old_path: self.old_path.clone(),
            new_path: self.new_path.clone(),
            change_type: self.change_type,
            insertions: self.insertions,
            deletions: self.deletions,
            commit_sha: self.commit_sha.clone(),
            branch: self.branch.clone(),
            observed_at: self.observed_at,
        };
        r
    }
}

/// Two records are of the same change exactly where path, former path, commit and
/// content are the same: when it was observed, in how many lines and as what kind makes
/// no difference.
pub proof fn law_a_change_is_its_paths_commit_and_content(
    a: FileChangeRecordView,
    b: FileChangeRecordView,
)
    ensures
        identity_of(a) == identity_of(b) <==> a.path == b.path && a.old_path == b.old_path
            && a.commit_sha == b.commit_sha && a.fingerprint == b.fingerprint,
{
}

/// Each change goes to the list of its kind and to no other; a conflicted file counts
/// as modified.
pub proof fn law_each_change_goes_to_its_list(
    changes: Seq<FileChangeRecordView>,
    r: FileChangeRecordView,
)
    ensures
        parted(changes).modified.contains(r) <==> changes.contains(r) && (r.change_type
            == FileChange::Modified || r.change_type == FileChange::Conflicted),
        parted(changes).added.contains(r) <==> changes.contains(r) && r.change_type
            == FileChange::Added,
        parted(changes).deleted.contains(r) <==> changes.contains(r) && r.change_type
            == FileChange::Deleted,
        parted(changes).renamed.contains(r) <==> changes.contains(r) && r.change_type
            == FileChange::Renamed,
        parted(changes).copied.contains(r) <==> changes.contains(r) && r.change_type
            == FileChange::Copied,
        parted(changes).untracked.contains(r) <==> changes.contains(r) && r.change_type
            == FileChange::Untracked,
        parted(changes).clean <==> changes.len() == 0,
{
    let w = parted(changes);
    if w.modified.contains(r) {
        lemma_filter_from(changes, is_modification(), r);
    }
    if w.added.contains(r) {
        lemma_filter_from(changes, is_kind(FileChange::Added), r);
    }
    if w.deleted.contains(r) {
        lemma_filter_from(changes, is_kind(FileChange::Deleted), r);
    }
    if w.renamed.contains(r) {
        lemma_filter_from(changes, is_kind(FileChange::Renamed), r);
    }
    if w.copied.contains(r) {
        lemma_filter_from(changes, is_kind(FileChange::Copied), r);
    }
    if w.untracked.contains(r) {
        lemma_filter_from(changes, is_kind(FileChange::Untracked), r);
    }
    if changes.contains(r) {
        if is_modification()(r) {
            lemma_filter_into(changes, is_modification(), r);
        } else {
            lemma_filter_into(changes, is_kind(r.change_type), r);
        }
    }
}

/// All changes of a tree come list by list: the modified files first, then the added,
/// deleted, renamed and copied ones, and the untracked last. Each list is there as a
/// whole, by path.
pub proof fn law_changes_come_list_by_list_and_by_path(w: WorktreeStateView)
    ensures
        ({
            let a = w.modified.len() as int;
            let b = a + w.added.len();
            let c = b + w.deleted.len();
            let d = c + w.renamed.len();
            let e = d + w.copied.len();
            let f = e + w.untracked.len();
            let all = ordered_changes(w);
            &&& all.len() == f
            &&& is_by_path(all.subrange(0, a), w.modified)
            &&& is_by_path(all.subrange(a, b), w.added)
            &&& is_by_path(all.subrange(b, c), w.deleted)
            &&& is_by_path(all.subrange(c, d), w.renamed)
            &&& is_by_path(all.subrange(d, e), w.copied)
            &&& is_by_path(all.subrange(e, f), w.untracked)
        }),
{
    lemma_by_path(w.modified);
    lemma_by_path(w.added);
    lemma_by_path(w.deleted);
    lemma_by_path(w.renamed);
    lemma_by_path(w.copied);
    lemma_by_path(w.untracked);
    let a = w.modified.len() as int;
    let b = a + w.added.len();
    let c = b + w.deleted.len();
    let d = c + w.renamed.len();
    let e = d + w.copied.len();
    let f = e + w.untracked.len();
    let all = ordered_changes(w);
    assert(all.subrange(0, a) =~= by_path(w.modified));
    assert(all.subrange(a, b) =~= by_path(w.added));
    assert(all.subrange(b, c) =~= by_path(w.deleted));
    assert(all.subrange(c, d) =~= by_path(w.renamed));
    assert(all.subrange(d, e) =~= by_path(w.copied));
    assert(all.subrange(e, f) =~= by_path(w.untracked));
}

/// `out` holds the changes of `s`, no path before a lesser one.
pub open spec fn is_by_path(
    out: Seq<FileChangeRecordView>,
    s: Seq<FileChangeRecordView>,
) -> bool {
    &&& out.to_multiset() == s.to_multiset()
    &&& forall|i: int, j: int|
        0 <= i < j < out.len() ==> !text_lt((#[trigger] out[j]).path, (#[trigger] out[i]).path)
}

proof fn lemma_by_path(s: Seq<FileChangeRecordView>)
    ensures
        is_by_path(by_path(s), s),
        by_path(s).len() == s.len(),
{
    lemma_in_order::<&FileChangeRecord, ByPath>(s);
    let out = by_path(s);
    assert forall|i: int, j: int| 0 <= i < j < out.len() implies !text_lt(
        (#[trigger] out[j]).path,
        (#[trigger] out[i]).path,
    ) by {
        assert(!<ByPath as Precedence<&FileChangeRecord>>::before(out[j], out[i]));
    }
}

/// Two trees hold the same changes exactly where each change of either has one in the
/// other with the same paths, commit, content and kind.
pub proof fn law_trees_agree_change_by_change(a: WorktreeStateView, b: WorktreeStateView)
    ensures
        same_changes(a, b) <==> {
            &&& forall|r: FileChangeRecordView| #[trigger]
                a.listed().contains(r) ==> exists|s: FileChangeRecordView| #[trigger]
                    b.listed().contains(s) && s.path == r.path && s.old_path == r.old_path
                        && s.commit_sha == r.commit_sha && s.fingerprint == r.fingerprint
                        && s.change_type == r.change_type
            &&& forall|r: FileChangeRecordView| #[trigger]
                b.listed().contains(r) ==> exists|s: FileChangeRecordView| #[trigger]
                    a.listed().contains(s) && s.path == r.path && s.old_path == r.old_path
                        && s.commit_sha == r.commit_sha && s.fingerprint == r.fingerprint
                        && s.change_type == r.change_type
        },
        same_changes(a, b) == same_changes(b, a),
{
    lemma_all_found(a.listed(), b.listed());
    lemma_all_found(b.listed(), a.listed());
}

proof fn lemma_all_found(a: Seq<FileChangeRecordView>, b: Seq<FileChangeRecordView>)
    ensures
        all_stand_in(a, b) <==> forall|r: FileChangeRecordView| #[trigger]
            a.contains(r) ==> exists|s: FileChangeRecordView| #[trigger]
                b.contains(s) && s.path == r.path && s.old_path == r.old_path && s.commit_sha
                    == r.commit_sha && s.fingerprint == r.fingerprint && s.change_type
                    == r.change_type,
{
    if all_stand_in(a, b) {
        assert forall|r: FileChangeRecordView| #[trigger] a.contains(r) implies exists|
            s: FileChangeRecordView,
        | #[trigger]
            b.contains(s) && s.path == r.path && s.old_path == r.old_path && s.commit_sha
                == r.commit_sha && s.fingerprint == r.fingerprint && s.change_type
                == r.change_type by {
            let i = choose|i: int| 0 <= i < a.len() && a[i] == r;
            assert(stands_in(a[i], b));
            let k = choose|k: int|
                0 <= k < b.len() && identity_of(#[trigger] b[k]) == identity_of(r)
                    && b[k].change_type == r.change_type;
            assert(b.contains(b[k]));
        }
    }
    if forall|r: FileChangeRecordView| #[trigger]
        a.contains(r) ==> exists|s: FileChangeRecordView| #[trigger]
            b.contains(s) && s.path == r.path && s.old_path == r.old_path && s.commit_sha
                == r.commit_sha && s.fingerprint == r.fingerprint && s.change_type
                == r.change_type {
        assert forall|i: int| 0 <= i < a.len() implies stands_in(#[trigger] a[i], b) by {
            let r = a[i];
            assert(a.contains(r));
            let s = choose|s: FileChangeRecordView| #[trigger]
                b.contains(s) && s.path == r.path && s.old_path == r.old_path && s.commit_sha
                    == r.commit_sha && s.fingerprint == r.fingerprint && s.change_type
                    == r.change_type;
            let k = choose|k: int| 0 <= k < b.len() && b[k] == s;
            assert(identity_of(b[k]) == identity_of(r));
        }
    }
}

/// A change is new exactly where it is there now and the tree held none before with the
/// same paths, commit and content.
pub proof fn law_a_new_change_was_not_there_before(
    current: WorktreeStateView,
    previous: WorktreeStateView,
    r: FileChangeRecordView,
)
    ensures
        fresh_changes(current, previous).contains(r) <==> {
            &&& current.listed().contains(r)
            &&& forall|s: FileChangeRecordView| #[trigger]
                previous.listed().contains(s) ==> s.path != r.path || s.old_path != r.old_path
                    || s.commit_sha != r.commit_sha || s.fingerprint != r.fingerprint
        },
{
    law_new_changes_are_exactly_the_new_ones(current, previous, r);
    let before = previous.listed();
    if has_identity(before, r) {
        let i = choose|i: int| 0 <= i < before.len() && identity_of(#[trigger] before[i])
            == identity_of(r);
        assert(before.contains(before[i]));
    } else {
        assert forall|s: FileChangeRecordView| #[trigger] before.contains(s) implies s.path
            != r.path || s.old_path != r.old_path || s.commit_sha != r.commit_sha
            || s.fingerprint != r.fingerprint by {
            let i = choose|i: int| 0 <= i < before.len() && before[i] == s;
            assert(identity_of(before[i]) != identity_of(r));
        }
    }
}

/// A record is coherent exactly where it names a former path if the file moved and none
/// if it did not.
pub proof fn law_only_a_moved_file_has_a_former_path(change: FileChange, has_old_path: bool)
    ensures
        incoherence(change, has_old_path) is None <==> (has_old_path <==> change
            == FileChange::Renamed || change == FileChange::Copied),
{
}

} // verus!
