//! The application state the library reads and updates, held as plain values.
//!
//! Each type has a view over `Seq`/`Option` of character sequences, and the
//! contracts of the library are stated over those views.
use vstd::prelude::*;
use crate::permalink::{remotes_view, Remote, RemoteView};

verus! {

/// Identifies an open repository.
#[derive(Clone, Copy, Debug, PartialEq, Eq, Hash, Structural)]
pub struct RepoId(pub u64);

/// What the file-system watcher saw change in a repository, passed on as
/// it is.
#[derive(Clone, Copy, Debug, PartialEq, Eq, Structural)]
pub struct RepoExternalChange(pub u8);

/// The history scope a menu entry picks, handed to the store as it is.
#[derive(Clone, Copy, Debug, PartialEq, Eq, Structural)]
pub struct LogScope(pub u8);

/// How a pull integrates the fetched branch, handed to the store as it is.
#[derive(Clone, Copy, Debug, PartialEq, Eq, Structural)]
pub struct PullMode(pub u8);

/// How the diff treats whitespace, handed to the diff pane as it is.
#[derive(Clone, Copy, Debug, PartialEq, Eq, Structural)]
pub struct DiffWhitespaceMode(pub u8);

pub open spec fn str_view(s: String) -> Seq<char> {
    s@
}

pub open spec fn opt_str_view(o: Option<String>) -> Option<Seq<char>> {
    match o {
        Some(s) => Some(s@),
        None => None,
    }
}

pub open spec fn strs_view(v: Seq<String>) -> Seq<Seq<char>> {
    v.map_values(|s: String| s@)
}

pub open spec fn opt_strs_view(o: Option<Vec<String>>) -> Option<Seq<Seq<char>>> {
    match o {
        Some(v) => Some(strs_view(v@)),
        None => None,
    }
}

/// A named group of worktree paths whose changes can be parked and restored.
#[derive(Clone, Debug, PartialEq, Eq)]
pub struct VirtualBranch {
    pub id: u64,
    pub name: String,
    pub paths: Vec<String>,
    pub applied: bool,
    pub stored_patch: Option<String>,
    pub pending: bool,
}

pub struct VirtualBranchView {
    pub id: u64,
    pub name: Seq<char>,
    pub paths: Seq<Seq<char>>,
    pub applied: bool,
    pub stored_patch: Option<Seq<char>>,
    pub pending: bool,
}

impl View for VirtualBranch {
    type V = VirtualBranchView;

    open spec fn view(&self) -> VirtualBranchView {
        VirtualBranchView {
            id: self.id,
            name: self.name@,
            paths: strs_view(self.paths@),
            applied: self.applied,
            stored_patch: opt_str_view(self.stored_patch),
            pending: self.pending,
        }
    }
}

pub open spec fn branches_view(v: Seq<VirtualBranch>) -> Seq<VirtualBranchView> {
    v.map_values(|b: VirtualBranch| b@)
}

#[derive(Clone, Copy, Debug, PartialEq, Eq, Structural)]
pub enum DiagnosticKind {
    Info,
    Warning,
    Error,
}

#[derive(Clone, Debug, PartialEq, Eq)]
pub struct Diagnostic {
    pub kind: DiagnosticKind,
    pub message: String,
}

pub struct DiagnosticView {
    pub kind: DiagnosticKind,
    pub message: Seq<char>,
}

impl View for Diagnostic {
    type V = DiagnosticView;

    open spec fn view(&self) -> DiagnosticView {
        DiagnosticView { kind: self.kind, message: self.message@ }
    }
}

pub open spec fn diagnostics_view(v: Seq<Diagnostic>) -> Seq<DiagnosticView> {
    v.map_values(|d: Diagnostic| d@)
}

/// The upstream a local branch tracks.
#[derive(Clone, Debug, PartialEq, Eq)]
pub struct Upstream {
    pub remote: String,
    pub branch: String,
}

/// A local branch.
#[derive(Clone, Debug, PartialEq, Eq)]
pub struct Branch {
    pub name: String,
    /// The commit the branch points at.
    pub target: String,
    pub upstream: Option<Upstream>,
}

pub struct BranchView {
    pub name: Seq<char>,
    pub target: Seq<char>,
    pub upstream: Option<(Seq<char>, Seq<char>)>,
}

impl View for Branch {
    type V = BranchView;

    open spec fn view(&self) -> BranchView {
        BranchView {
            name: self.name@,
            target: self.target@,
            upstream: match self.upstream {
                Some(u) => Some((u.remote@, u.branch@)),
                None => None,
            },
        }
    }
}

/// Which side of the index a worktree diff shows.
#[derive(Clone, Copy, Debug, PartialEq, Eq, Structural)]
pub enum DiffArea {
    Unstaged,
    Staged,
}

/// What the diff pane shows.
#[derive(Clone, Debug, PartialEq, Eq)]
pub enum DiffTarget {
    WorkingTree { path: String, area: DiffArea },
    Commit { commit_id: String, path: Option<String> },
}

pub enum DiffTargetView {
    WorkingTree { path: Seq<char>, area: DiffArea },
    Commit { commit_id: Seq<char>, path: Option<Seq<char>> },
}

impl View for DiffTarget {
    type V = DiffTargetView;

    open spec fn view(&self) -> DiffTargetView {
        match self {
            DiffTarget::WorkingTree { path, area } => DiffTargetView::WorkingTree {
                path: path@,
                area: *area,
            },
            DiffTarget::Commit { commit_id, path } => DiffTargetView::Commit {
                commit_id: commit_id@,
                path: opt_str_view(*path),
            },
        }
    }
}

/// Data loaded in the background: not asked for yet, on its way, there, or
/// failed with a message.
#[derive(Clone, Debug, PartialEq, Eq)]
pub enum Loadable<T> {
    NotLoaded,
    Loading,
    Ready(T),
    Error(String),
}

/// One commit of a history page.
#[derive(Clone, Debug, PartialEq, Eq)]
pub struct Commit {
    pub id: String,
    pub parent_ids: Vec<String>,
    pub summary: String,
    pub author: String,
}

pub struct CommitView {
    pub id: Seq<char>,
    pub parent_ids: Seq<Seq<char>>,
    pub summary: Seq<char>,
    pub author: Seq<char>,
}

impl View for Commit {
    type V = CommitView;

    open spec fn view(&self) -> CommitView {
        CommitView {
            id: self.id@,
            parent_ids: strs_view(self.parent_ids@),
            summary: self.summary@,
            author: self.author@,
        }
    }
}

pub open spec fn commits_view(v: Seq<Commit>) -> Seq<CommitView> {
    v.map_values(|c: Commit| c@)
}

/// What the sidebar file browser shows: the working directory, or the tree
/// of a commit or a branch.
#[derive(Clone, Debug, PartialEq, Eq)]
pub enum FileSource {
    WorkingDirectory,
    Commit(String),
    Branch(String),
}

pub enum FileSourceView {
    WorkingDirectory,
    Commit(Seq<char>),
    Branch(Seq<char>),
}

impl View for FileSource {
    type V = FileSourceView;

    open spec fn view(&self) -> FileSourceView {
        match self {
            FileSource::WorkingDirectory => FileSourceView::WorkingDirectory,
            FileSource::Commit(c) => FileSourceView::Commit(c@),
            FileSource::Branch(b) => FileSourceView::Branch(b@),
        }
    }
}

/// A commit marked as the base of a comparison, with the label it is shown by.
#[derive(Clone, Debug, PartialEq, Eq)]
pub struct ComparisonMark {
    pub commit_id: String,
    pub label: String,
}

/// The state of one open repository that the library reads.
///
/// `None` in an `Option` field stands for data that has not finished loading.
#[derive(Clone, Debug, PartialEq, Eq)]
pub struct RepoState {
    pub id: RepoId,
    pub workdir: String,
    pub head_branch: Option<String>,
    pub branches: Option<Vec<Branch>>,
    pub diff_target: Option<DiffTarget>,
    pub diff_target_rev: u64,
    pub history_author_filter: Option<String>,
    pub log_commits: Option<Vec<Commit>>,
    pub worktree_status: Option<Vec<String>>,
    pub remotes: Option<Vec<Remote>>,
    pub file_browser_source: FileSource,
    pub comparison_mark: Option<ComparisonMark>,
    pub file_browser_rev: u64,
    pub next_virtual_branch_id: u64,
    pub virtual_branches: Vec<VirtualBranch>,
    pub virtual_branches_rev: u64,
    pub diagnostics: Vec<Diagnostic>,
}

pub struct RepoStateView {
    pub id: RepoId,
    pub workdir: Seq<char>,
    pub head_branch: Option<Seq<char>>,
    pub branches: Option<Seq<BranchView>>,
    pub diff_target: Option<DiffTargetView>,
    pub diff_target_rev: u64,
    pub history_author_filter: Option<Seq<char>>,
    pub log_commits: Option<Seq<CommitView>>,
    pub worktree_status: Option<Seq<Seq<char>>>,
    pub remotes: Option<Seq<RemoteView>>,
    pub file_browser_source: FileSourceView,
    pub comparison_mark: Option<(Seq<char>, Seq<char>)>,
    pub file_browser_rev: u64,
    pub next_virtual_branch_id: u64,
    pub virtual_branches: Seq<VirtualBranchView>,
    pub virtual_branches_rev: u64,
    pub diagnostics: Seq<DiagnosticView>,
}

impl View for RepoState {
    type V = RepoStateView;

    open spec fn view(&self) -> RepoStateView {
        RepoStateView {
            id: self.id,
            workdir: self.workdir@,
            head_branch: opt_str_view(self.head_branch),
            branches: match self.branches {
                Some(b) => Some(b@.map_values(|x: Branch| x@)),
                None => None,
            },
            diff_target: match self.diff_target {
                Some(t) => Some(t@),
                None => None,
            },
            diff_target_rev: self.diff_target_rev,
            history_author_filter: opt_str_view(self.history_author_filter),
            log_commits: match self.log_commits {
                Some(c) => Some(commits_view(c@)),
                None => None,
            },
            worktree_status: opt_strs_view(self.worktree_status),
            remotes: match self.remotes {
                Some(r) => Some(remotes_view(r@)),
                None => None,
            },
            file_browser_source: self.file_browser_source@,
            comparison_mark: match self.comparison_mark {
                Some(m) => Some((m.commit_id@, m.label@)),
                None => None,
            },
            file_browser_rev: self.file_browser_rev,
            next_virtual_branch_id: self.next_virtual_branch_id,
            virtual_branches: branches_view(self.virtual_branches@),
            virtual_branches_rev: self.virtual_branches_rev,
            diagnostics: diagnostics_view(self.diagnostics@),
        }
    }
}

impl RepoState {
    /// A repository that has just been opened: nothing loaded yet, no virtual
    /// branches, and the first virtual branch id is 1.
    pub fn new_opening(id: RepoId, workdir: String) -> (res: RepoState)
        ensures
            res@.id == id,
            res@.workdir == workdir@,
            res@.head_branch is None,
            res@.branches is None,
            res@.diff_target is None,
            res@.diff_target_rev == 0,
            res@.history_author_filter is None,
            res@.log_commits is None,
            res@.worktree_status is None,
            res@.remotes is None,
            res@.file_browser_source is WorkingDirectory,
            res@.comparison_mark is None,
            res@.file_browser_rev == 0,
            res@.next_virtual_branch_id == 1,
            res@.virtual_branches.len() == 0,
            res@.virtual_branches_rev == 0,
            res@.diagnostics.len() == 0,
    {
        RepoState {
            id,
            workdir,
            head_branch: None,
            branches: None,
            diff_target: None,
            diff_target_rev: 0,
            history_author_filter: None,
            log_commits: None,
            worktree_status: None,
            remotes: None,
            file_browser_source: FileSource::WorkingDirectory,
            comparison_mark: None,
            file_browser_rev: 0,
            next_virtual_branch_id: 1,
            virtual_branches: Vec::new(),
            virtual_branches_rev: 0,
            diagnostics: Vec::new(),
        }
    }
}

/// All open repositories and which one is active.
#[derive(Clone, Debug, PartialEq, Eq)]
pub struct AppState {
    pub repos: Vec<RepoState>,
    pub active_repo: Option<RepoId>,
}

pub struct AppStateView {
    pub repos: Seq<RepoStateView>,
    pub active_repo: Option<RepoId>,
}

impl View for AppState {
    type V = AppStateView;

    open spec fn view(&self) -> AppStateView {
        AppStateView {
            repos: self.repos@.map_values(|r: RepoState| r@),
            active_repo: self.active_repo,
        }
    }
}

/// `i` is the first position whose repository has id `id`.
pub open spec fn is_first_repo(repos: Seq<RepoStateView>, id: RepoId, i: int) -> bool {
    &&& 0 <= i < repos.len()
    &&& repos[i].id == id
    &&& forall|j: int| 0 <= j < i ==> repos[j].id != id
}

/// Position of the first repository with id `id` (what `iter().find` picks).
pub open spec fn repo_position(repos: Seq<RepoStateView>, id: RepoId) -> Option<int> {
    if exists|i: int| is_first_repo(repos, id, i) {
        Some(choose|i: int| is_first_repo(repos, id, i))
    } else {
        None
    }
}

pub proof fn lemma_first_repo_unique(repos: Seq<RepoStateView>, id: RepoId, i: int, j: int)
    requires
        is_first_repo(repos, id, i),
        is_first_repo(repos, id, j),
    ensures
        i == j,
{
}

/// The first repository with id `id`, if any (what `iter().find` returns).
pub open spec fn find_repo_view(repos: Seq<RepoStateView>, id: RepoId) -> Option<RepoStateView> {
    match repo_position(repos, id) {
        Some(i) => Some(repos[i]),
        None => None,
    }
}

impl AppState {
    pub fn new() -> (res: AppState)
        ensures
            res@.repos.len() == 0,
            res@.active_repo is None,
    {
        AppState { repos: Vec::new(), active_repo: None }
    }
}

/// Position of the first repository with id `id`.
pub fn find_repo_index(repos: &Vec<RepoState>, id: RepoId) -> (res: Option<usize>)
    ensures
        res matches Some(i) ==> i < repos@.len() && repo_position(
            repos@.map_values(|r: RepoState| r@),
            id,
        ) == Some(i as int) && is_first_repo(repos@.map_values(|r: RepoState| r@), id, i as int),
        res is None ==> repo_position(repos@.map_values(|r: RepoState| r@), id) is None,
{
    let ghost views = repos@.map_values(|r: RepoState| r@);
    let mut i: usize = 0;
    while i < repos.len()
        invariant
            i <= repos.len(),
            views == repos@.map_values(|r: RepoState| r@),
            forall|j: int| 0 <= j < i ==> views[j].id != id,
        decreases repos.len() - i,
    {
        if repos[i].id.0 == id.0 {
            assert(is_first_repo(views, id, i as int));
            let ghost k = choose|k: int| is_first_repo(views, id, k);
            proof {
                lemma_first_repo_unique(views, id, i as int, k);
            }
            return Some(i);
        }
        i += 1;
    }
    assert(!exists|k: int| is_first_repo(views, id, k));
    None
}

/// Replacing one repository in the vector replaces its view at the same position.
pub proof fn lemma_repos_view_update(before: Seq<RepoState>, after: Seq<RepoState>, i: int)
    requires
        0 <= i < before.len(),
        after == before.update(i, after[i]),
    ensures
        after.map_values(|r: RepoState| r@) =~= before.map_values(|r: RepoState| r@).update(
            i,
            after[i]@,
        ),
{
}

} // verus!
