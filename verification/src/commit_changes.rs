//! The files a commit (or a range) changes, from the entries of a tree diff:
//! which entries are listed, with what kind of change, and which get line
//! stats.
use vstd::prelude::*;

verus! {

/// One entry of a tree-to-tree diff. `is_tree` and `is_commit` say whether
/// an entry mode is a directory or a submodule; ids are object ids in hex.
#[derive(Clone, Debug, PartialEq, Eq)]
pub enum TreeChange {
    Addition { location: String, is_tree: bool, is_commit: bool, id: String },
    Deletion { location: String, is_tree: bool, is_commit: bool, id: String },
    Modification {
        location: String,
        previous_is_tree: bool,
        previous_is_commit: bool,
        is_tree: bool,
        is_commit: bool,
        previous_id: String,
        id: String,
    },
    /// A rename, or a copy when `copy` is set.
    Rewrite {
        location: String,
        source_is_tree: bool,
        source_is_commit: bool,
        is_tree: bool,
        is_commit: bool,
        copy: bool,
        source_id: String,
        id: String,
    },
}

/// How a listed file changed.
#[derive(Clone, Copy, Debug, PartialEq, Eq, Structural)]
pub enum ChangeKind {
    Added,
    Deleted,
    Modified,
    Renamed,
}

/// A changed file of a commit: its path, how it changed, whether it is a
/// submodule, and, when its line stats are wanted, the blobs to count them
/// from (old side, new side; an absent side reads as empty).
#[derive(Clone, Debug, PartialEq, Eq)]
pub struct CommitFileChange {
    pub path: String,
    pub kind: ChangeKind,
    pub is_submodule: bool,
    pub stats_from: Option<(Option<String>, Option<String>)>,
}

pub struct CommitFileChangeView {
    pub path: Seq<char>,
    pub kind: ChangeKind,
    pub is_submodule: bool,
    pub stats_from: Option<(Option<Seq<char>>, Option<Seq<char>>)>,
}

pub open spec fn opt_text(o: Option<String>) -> Option<Seq<char>> {
    match o {
        Some(s) => Some(s@),
        None => None,
    }
}

impl View for CommitFileChange {
    type V = CommitFileChangeView;

    open spec fn view(&self) -> CommitFileChangeView {
        CommitFileChangeView {
            path: self.path@,
            kind: self.kind,
            is_submodule: self.is_submodule,
            stats_from: match self.stats_from {
                Some((o, n)) => Some((opt_text(o), opt_text(n))),
                None => None,
            },
        }
    }
}

/// What a diff entry says: its path, whether it is a directory, whether it
/// is a submodule, its kind, and its old and new blob ids.
pub open spec fn entry_facts(c: TreeChange) -> (Seq<char>, bool, bool, ChangeKind, Option<Seq<char>>, Option<
    Seq<char>,
>) {
    match c {
        TreeChange::Addition { location, is_tree, is_commit, id } => (
            location@,
            is_tree,
            is_commit,
            ChangeKind::Added,
            None,
            Some(id@),
        ),
        TreeChange::Deletion { location, is_tree, is_commit, id } => (
            location@,
            is_tree,
            is_commit,
            ChangeKind::Deleted,
            Some(id@),
            None,
        ),
        TreeChange::Modification {
            location,
            previous_is_tree,
            previous_is_commit,
            is_tree,
            is_commit,
            previous_id,
            id,
        } => (
            location@,
            previous_is_tree || is_tree,
            previous_is_commit || is_commit,
            ChangeKind::Modified,
            Some(previous_id@),
            Some(id@),
        ),
        TreeChange::Rewrite {
            location,
            source_is_tree,
            source_is_commit,
            is_tree,
            is_commit,
            copy,
            source_id,
            id,
        } => (
            location@,
            source_is_tree || is_tree,
            source_is_commit || is_commit,
            if copy {
                ChangeKind::Added
            } else {
                ChangeKind::Renamed
            },
            Some(source_id@),
            Some(id@),
        ),
    }
}

/// The listed change for a diff entry: none for a directory; line stats
/// only when stats are computed and the entry is no submodule.
pub open spec fn file_change_spec(c: TreeChange, compute_stats: bool) -> Option<CommitFileChangeView> {
    let (path, is_tree, is_submodule, kind, old_id, new_id) = entry_facts(c);
    if is_tree {
        None
    } else {
        Some(
            CommitFileChangeView {
                path,
                kind,
                is_submodule,
                stats_from: if compute_stats && !is_submodule {
                    Some((old_id, new_id))
                } else {
                    None
                },
            },
        )
    }
}

/// The listed change for one diff entry.
pub fn commit_file_change_from_diff(change: &TreeChange, compute_stats: bool) -> (res: Option<
    CommitFileChange,
>)
    ensures
        match res {
            Some(r) => file_change_spec(*change, compute_stats) == Some(r@),
            None => file_change_spec(*change, compute_stats) is None,
        },
{
    let (location, is_tree, is_submodule, kind, old_id, new_id) = match change {
        TreeChange::Addition { location, is_tree, is_commit, id } => (
            location.clone(),
            *is_tree,
            *is_commit,
            ChangeKind::Added,
            None,
            Some(id.clone()),
        ),
        TreeChange::Deletion { location, is_tree, is_commit, id } => (
            location.clone(),
            *is_tree,
            *is_commit,
            ChangeKind::Deleted,
            Some(id.clone()),
            None,
        ),
        TreeChange::Modification {
            location,
            previous_is_tree,
            previous_is_commit,
            is_tree,
            is_commit,
            previous_id,
            id,
        } => (
            location.clone(),
            *previous_is_tree || *is_tree,
            *previous_is_commit || *is_commit,
            ChangeKind::Modified,
            Some(previous_id.clone()),
            Some(id.clone()),
        ),
        TreeChange::Rewrite {
            location,
            source_is_tree,
            source_is_commit,
            is_tree,
            is_commit,
            copy,
            source_id,
            id,
        } => (
            location.clone(),
            *source_is_tree || *is_tree,
            *source_is_commit || *is_commit,
            if *copy {
                ChangeKind::Added
            } else {
                ChangeKind::Renamed
            },
            Some(source_id.clone()),
            Some(id.clone()),
        ),
    };
    if is_tree {
        return None;
    }
    let stats_from = if compute_stats && !is_submodule {
        Some((old_id, new_id))
    } else {
        None
    };
    Some(CommitFileChange { path: location, kind, is_submodule, stats_from })
}

/// Commits touching more files than this get no line stats.
pub const COMMIT_STATS_MAX_FILES: usize = 400;

/// The changed files of a diff: its entries in order, directories left out,
/// with line stats wanted only when the diff has at most 400 entries.
pub open spec fn file_changes_spec(changes: Seq<TreeChange>, n: int, compute_stats: bool) -> Seq<
    CommitFileChangeView,
>
    decreases n,
{
    if n <= 0 {
        Seq::empty()
    } else {
        let prev = file_changes_spec(changes, n - 1, compute_stats);
        match file_change_spec(changes[n - 1], compute_stats) {
            Some(c) => prev.push(c),
            None => prev,
        }
    }
}

pub open spec fn changes_view(v: Seq<CommitFileChange>) -> Seq<CommitFileChangeView> {
    v.map_values(|c: CommitFileChange| c@)
}

/// The changed files of a tree diff.
pub fn tree_diff_file_changes(changes: &Vec<TreeChange>) -> (res: Vec<CommitFileChange>)
    ensures
        changes_view(res@) == file_changes_spec(
            changes@,
            changes@.len() as int,
            changes@.len() <= COMMIT_STATS_MAX_FILES,
        ),
{
    let compute_stats = changes.len() <= COMMIT_STATS_MAX_FILES;
    let mut out: Vec<CommitFileChange> = Vec::new();
    let mut i: usize = 0;
    while i < changes.len()
        invariant
            i <= changes.len(),
            compute_stats == (changes@.len() <= COMMIT_STATS_MAX_FILES),
            changes_view(out@) == file_changes_spec(changes@, i as int, compute_stats),
        decreases changes.len() - i,
    {
        match commit_file_change_from_diff(&changes[i], compute_stats) {
            Some(c) => {
                let ghost before = out@;
                out.push(c);
                assert(changes_view(out@) =~= changes_view(before).push(c@));
            },
            None => {},
        }
        i += 1;
    }
    out
}

/// A commit lists the changes against its parent; a merge commit lists none.
pub fn commit_file_changes(parent_count: usize, changes_from_parent: &Vec<TreeChange>) -> (res: Vec<
    CommitFileChange,
>)
    ensures
        parent_count > 1 ==> res@.len() == 0,
        parent_count <= 1 ==> changes_view(res@) == file_changes_spec(
            changes_from_parent@,
            changes_from_parent@.len() as int,
            changes_from_parent@.len() <= COMMIT_STATS_MAX_FILES,
        ),
{
    if parent_count > 1 {
        return Vec::new();
    }
    tree_diff_file_changes(changes_from_parent)
}

/// The well-known id of git's empty tree.
pub open spec fn empty_tree_id() -> Seq<char> {
    "4b825dc642cb6eb9a060e54bf8d69288fbee4904"@
}

/// Whether a range's base names a tree to diff from: the empty tree stands
/// for "no content" and is not looked up.
pub fn range_base_has_tree(from: &str) -> (res: bool)
    ensures
        res == (from@ != empty_tree_id()),
{
    !crate::text::str_eq(from, "4b825dc642cb6eb9a060e54bf8d69288fbee4904")
}

} // verus!
