//! Message vocabulary shared by the store and the UI.
use vstd::prelude::*;
use crate::context_menu::{
    opt_view, rebase_entries_view, source_colors_view, InteractiveRebaseEntry,
    InteractiveRebaseEntryView,
};
use crate::model::{
    opt_str_view, strs_view, DiffTarget, DiffTargetView, FileSource, FileSourceView, LogScope, PullMode,
    RepoExternalChange, RepoId,
};

verus! {

#[derive(Clone, Copy, Debug, PartialEq, Eq, Structural)]
pub enum RepoActionKind {
    CheckoutBranch,
    CheckoutRemoteBranch,
    CheckoutCommit,
    CherryPickCommit,
    RevertCommit,
    CreateBranch,
    CreateBranchAndCheckout,
    RenameBranch,
    DeleteBranch,
    ForceDeleteBranch,
    StagePath,
    StagePaths,
    UnstagePath,
    UnstagePaths,
    DiscardWorktreeChangesPath,
    DiscardWorktreeChangesPaths,
    Stash,
    ApplyStash,
    PopStash,
    DropStash,
}

/// How a history-row click mutates the commit selection.
#[derive(Clone, Copy, Debug, PartialEq, Eq, Structural)]
pub enum CommitSelectMode {
    /// Plain click: collapse to the clicked commit.
    Single,
    /// Ctrl/Cmd click: add or remove the clicked commit.
    Toggle,
    /// Shift click: select the range between the anchor and the clicked commit.
    Range,
    /// Move focus to the clicked commit while preserving an existing
    /// multi-selection that already contains it; collapses to the clicked
    /// commit when it is not part of the selection.
    PreserveIfSelected,
}

#[derive(Clone, Copy, Debug, PartialEq, Eq, Structural)]
pub enum ConflictAutosolveMode {
    Safe,
    Regex,
    History,
}

pub open spec fn autosolve_mode_name(mode: ConflictAutosolveMode) -> Seq<char> {
    match mode {
        ConflictAutosolveMode::Safe => "safe"@,
        ConflictAutosolveMode::Regex => "regex"@,
        ConflictAutosolveMode::History => "history"@,
    }
}

impl ConflictAutosolveMode {
    pub fn as_str(self) -> (res: &'static str)
        ensures
            res@ == autosolve_mode_name(self),
    {
        match self {
            ConflictAutosolveMode::Safe => "safe",
            ConflictAutosolveMode::Regex => "regex",
            ConflictAutosolveMode::History => "history",
        }
    }
}

#[derive(Clone, Copy, Debug, PartialEq, Eq, Structural)]
pub enum ConflictBulkChoice {
    Base,
    Ours,
    Theirs,
    Both,
}

#[derive(Clone, Copy, Debug, PartialEq, Eq, Structural)]
pub enum ConflictRegionChoice {
    Base,
    Ours,
    Theirs,
    Both,
}

/// How many conflict regions each autosolve pass resolved.
#[derive(Clone, Copy, Debug, PartialEq, Eq, Structural)]
pub struct ConflictAutosolveStats {
    pub pass1: usize,
    pub pass2_split: usize,
    pub pass1_after_split: usize,
    pub regex: usize,
    pub history: usize,
}

impl Default for ConflictAutosolveStats {
    fn default() -> (res: ConflictAutosolveStats)
        ensures
            res.pass1 == 0 && res.pass2_split == 0 && res.pass1_after_split == 0 && res.regex == 0
                && res.history == 0,
    {
        ConflictAutosolveStats { pass1: 0, pass2_split: 0, pass1_after_split: 0, regex: 0, history: 0 }
    }
}

pub open spec fn resolved_total(s: ConflictAutosolveStats) -> int {
    s.pass1 + s.pass2_split + s.pass1_after_split + s.regex + s.history
}

impl ConflictAutosolveStats {
    /// The regions resolved by all passes together.
    pub fn total_resolved(self) -> (res: usize)
        requires
            resolved_total(self) <= usize::MAX,
        ensures
            res == resolved_total(self),
    {
        self.pass1 + self.pass2_split + self.pass1_after_split + self.regex + self.history
    }
}

/// Why the file-system watcher is in a degraded state.
#[derive(Clone, Copy, Debug, PartialEq, Eq, Structural)]
pub enum RepoWatchDegradedReason {
    /// The worktree has more non-ignored folders than the watch budget, so its
    /// source folders are not watched live at all. Carries the folder count.
    TooManyFolders { dir_count: usize },
    /// Some per-directory watches could not be added, so part of the worktree
    /// is not watched live. Carries the number of folders left unwatched.
    WatchLimitReached { unwatched_dirs: usize },
}

/// Which sidebar data to make sure is loaded.
#[derive(Clone, Copy, Debug, PartialEq, Eq, Structural)]
pub struct SidebarDataRequest {
    pub worktrees: bool,
    pub submodules: bool,
    pub stashes: bool,
}

/// The store messages the menus, prompts and sidebar dispatch.
#[derive(Clone, Debug, PartialEq, Eq)]
pub enum Msg {
    SelectDiff { repo_id: RepoId, target: DiffTarget },
    OpenFileContent { repo_id: RepoId, source: FileSource, path: String },
    BrowseRepositoryAtCommit { repo_id: RepoId, commit_id: String },
    CheckoutCommit { repo_id: RepoId, commit_id: String },
    MarkForComparison { repo_id: RepoId, commit_id: String, label: String },
    CompareWithMarked { repo_id: RepoId, commit_id: String, label: String },
    CompareWithWorkingTree { repo_id: RepoId, from: String, from_label: String },
    ClearComparisonMark { repo_id: RepoId },
    RevertCommit { repo_id: RepoId, commit_id: String },
    PrepareSquash { repo_id: RepoId },
    LoadInteractiveRebaseSetup { repo_id: RepoId, base: String },
    OpenInteractiveCherryPickSetup {
        repo_id: RepoId,
        entries: Vec<InteractiveRebaseEntry>,
        source_colors: Vec<(String, u8)>,
    },
    SetHistoryAuthorFilter { repo_id: RepoId, author: Option<String> },
    FetchAll { repo_id: RepoId },
    ApplyWorktreePatch { repo_id: RepoId, patch: String, reverse: bool },
    StageHunk { repo_id: RepoId, patch: String },
    UnstageHunk { repo_id: RepoId, patch: String },
    ClearDiffSelection { repo_id: RepoId },
    DiscardWorktreeChangesPath { repo_id: RepoId, path: String },
    DiscardWorktreeChangesPaths { repo_id: RepoId, paths: Vec<String> },
    ResetBrowseToLive { repo_id: RepoId },
    SelectConflictDiff { repo_id: RepoId, path: String },
    SetActiveRepo { repo_id: RepoId },
    CloseRepo { repo_id: RepoId },
    CloseRepos { repo_ids: Vec<RepoId>, activate_after: Option<RepoId> },
    CheckoutBranch { repo_id: RepoId, name: String },
    LaunchMergetool { repo_id: RepoId, path: String },
    PruneMergedBranches { repo_id: RepoId },
    PruneLocalTags { repo_id: RepoId },
    UpdateSubmodules { repo_id: RepoId },
    LoadSubmodule { repo_id: RepoId, path: String },
    LoadWorktrees { repo_id: RepoId },
    PullBranch { repo_id: RepoId, remote: String, branch: String },
    MergeRef { repo_id: RepoId, reference: String },
    SquashRef { repo_id: RepoId, reference: String },
    ApplyStash { repo_id: RepoId, index: usize },
    PopStash { repo_id: RepoId, index: usize },
    Push { repo_id: RepoId },
    SetUpstreamBranch { repo_id: RepoId, branch: String, upstream: String },
    UnsetUpstreamBranch { repo_id: RepoId, branch: String },
    DeleteTag { repo_id: RepoId, name: String },
    PushTag { repo_id: RepoId, remote: String, name: String },
    DeleteRemoteTag { repo_id: RepoId, remote: String, name: String },
    OpenRepo(String),
    LoadSubmodules { repo_id: RepoId },
    EnsureSidebarData { repo_id: RepoId, request: SidebarDataRequest },
    LoadFileBrowser { repo_id: RepoId, source: FileSource },
    StagePaths { repo_id: RepoId, paths: Vec<String> },
    ApplyVirtualBranch { repo_id: RepoId, branch_id: u64 },
    UnapplyVirtualBranch { repo_id: RepoId, branch_id: u64 },
    DeleteVirtualBranch { repo_id: RepoId, branch_id: u64 },
    AssignPathToVirtualBranch { repo_id: RepoId, branch_id: u64, path: String },
    PruneVirtualBranches { repo_id: RepoId, branch_ids: Vec<u64> },
    DropStash { repo_id: RepoId, index: usize },
    LoadStashes { repo_id: RepoId },
    SelectCommit { repo_id: RepoId, commit_id: String },
    DeleteBranch { repo_id: RepoId, name: String },
    SetHistoryScope { repo_id: RepoId, scope: LogScope },
    Pull { repo_id: RepoId, mode: PullMode },
    RestoreSession { open_repos: Vec<String>, active_repo: Option<String> },
    ReorderRepoTabs { repo_id: RepoId, insert_before: Option<RepoId> },
    ReloadRepo { repo_id: RepoId },
    RepoActivated { repo_id: RepoId },
    RepoExternallyChanged { repo_id: RepoId, change: RepoExternalChange },
}

pub enum MsgView {
    SelectDiff { repo_id: RepoId, target: DiffTargetView },
    OpenFileContent { repo_id: RepoId, source: FileSourceView, path: Seq<char> },
    BrowseRepositoryAtCommit { repo_id: RepoId, commit_id: Seq<char> },
    CheckoutCommit { repo_id: RepoId, commit_id: Seq<char> },
    MarkForComparison { repo_id: RepoId, commit_id: Seq<char>, label: Seq<char> },
    CompareWithMarked { repo_id: RepoId, commit_id: Seq<char>, label: Seq<char> },
    CompareWithWorkingTree { repo_id: RepoId, from: Seq<char>, from_label: Seq<char> },
    ClearComparisonMark { repo_id: RepoId },
    RevertCommit { repo_id: RepoId, commit_id: Seq<char> },
    PrepareSquash { repo_id: RepoId },
    LoadInteractiveRebaseSetup { repo_id: RepoId, base: Seq<char> },
    OpenInteractiveCherryPickSetup {
        repo_id: RepoId,
        entries: Seq<InteractiveRebaseEntryView>,
        source_colors: Seq<(Seq<char>, u8)>,
    },
    SetHistoryAuthorFilter { repo_id: RepoId, author: Option<Seq<char>> },
    FetchAll { repo_id: RepoId },
    ApplyWorktreePatch { repo_id: RepoId, patch: Seq<char>, reverse: bool },
    StageHunk { repo_id: RepoId, patch: Seq<char> },
    UnstageHunk { repo_id: RepoId, patch: Seq<char> },
    ClearDiffSelection { repo_id: RepoId },
    DiscardWorktreeChangesPath { repo_id: RepoId, path: Seq<char> },
    DiscardWorktreeChangesPaths { repo_id: RepoId, paths: Seq<Seq<char>> },
    ResetBrowseToLive { repo_id: RepoId },
    SelectConflictDiff { repo_id: RepoId, path: Seq<char> },
    SetActiveRepo { repo_id: RepoId },
    CloseRepo { repo_id: RepoId },
    CloseRepos { repo_ids: Seq<RepoId>, activate_after: Option<RepoId> },
    CheckoutBranch { repo_id: RepoId, name: Seq<char> },
    LaunchMergetool { repo_id: RepoId, path: Seq<char> },
    PruneMergedBranches { repo_id: RepoId },
    PruneLocalTags { repo_id: RepoId },
    UpdateSubmodules { repo_id: RepoId },
    LoadSubmodule { repo_id: RepoId, path: Seq<char> },
    LoadWorktrees { repo_id: RepoId },
    PullBranch { repo_id: RepoId, remote: Seq<char>, branch: Seq<char> },
    MergeRef { repo_id: RepoId, reference: Seq<char> },
    SquashRef { repo_id: RepoId, reference: Seq<char> },
    ApplyStash { repo_id: RepoId, index: usize },
    PopStash { repo_id: RepoId, index: usize },
    Push { repo_id: RepoId },
    SetUpstreamBranch { repo_id: RepoId, branch: Seq<char>, upstream: Seq<char> },
    UnsetUpstreamBranch { repo_id: RepoId, branch: Seq<char> },
    DeleteTag { repo_id: RepoId, name: Seq<char> },
    PushTag { repo_id: RepoId, remote: Seq<char>, name: Seq<char> },
    DeleteRemoteTag { repo_id: RepoId, remote: Seq<char>, name: Seq<char> },
    OpenRepo(Seq<char>),
    LoadSubmodules { repo_id: RepoId },
    EnsureSidebarData { repo_id: RepoId, request: SidebarDataRequest },
    LoadFileBrowser { repo_id: RepoId, source: FileSourceView },
    StagePaths { repo_id: RepoId, paths: Seq<Seq<char>> },
    ApplyVirtualBranch { repo_id: RepoId, branch_id: u64 },
    UnapplyVirtualBranch { repo_id: RepoId, branch_id: u64 },
    DeleteVirtualBranch { repo_id: RepoId, branch_id: u64 },
    AssignPathToVirtualBranch { repo_id: RepoId, branch_id: u64, path: Seq<char> },
    PruneVirtualBranches { repo_id: RepoId, branch_ids: Seq<u64> },
    DropStash { repo_id: RepoId, index: usize },
    LoadStashes { repo_id: RepoId },
    SelectCommit { repo_id: RepoId, commit_id: Seq<char> },
    DeleteBranch { repo_id: RepoId, name: Seq<char> },
    SetHistoryScope { repo_id: RepoId, scope: LogScope },
    Pull { repo_id: RepoId, mode: PullMode },
    RestoreSession { open_repos: Seq<Seq<char>>, active_repo: Option<Seq<char>> },
    ReorderRepoTabs { repo_id: RepoId, insert_before: Option<RepoId> },
    ReloadRepo { repo_id: RepoId },
    RepoActivated { repo_id: RepoId },
    RepoExternallyChanged { repo_id: RepoId, change: RepoExternalChange },
}

impl View for Msg {
    type V = MsgView;

    open spec fn view(&self) -> MsgView {
        match self {
            Msg::SelectDiff { repo_id, target } => MsgView::SelectDiff {
                repo_id: *repo_id,
                target: target@,
            },
            Msg::OpenFileContent { repo_id, source, path } => MsgView::OpenFileContent {
                repo_id: *repo_id,
                source: source@,
                path: path@,
            },
            Msg::BrowseRepositoryAtCommit { repo_id, commit_id } =>
                MsgView::BrowseRepositoryAtCommit { repo_id: *repo_id, commit_id: commit_id@ },
            Msg::CheckoutCommit { repo_id, commit_id } => MsgView::CheckoutCommit {
                repo_id: *repo_id,
                commit_id: commit_id@,
            },
            Msg::MarkForComparison { repo_id, commit_id, label } => MsgView::MarkForComparison {
                repo_id: *repo_id,
                commit_id: commit_id@,
                label: label@,
            },
            Msg::CompareWithMarked { repo_id, commit_id, label } => MsgView::CompareWithMarked {
                repo_id: *repo_id,
                commit_id: commit_id@,
                label: label@,
            },
            Msg::CompareWithWorkingTree { repo_id, from, from_label } =>
                MsgView::CompareWithWorkingTree {
                    repo_id: *repo_id,
                    from: from@,
                    from_label: from_label@,
                },
            Msg::ClearComparisonMark { repo_id } => MsgView::ClearComparisonMark {
                repo_id: *repo_id,
            },
            Msg::RevertCommit { repo_id, commit_id } => MsgView::RevertCommit {
                repo_id: *repo_id,
                commit_id: commit_id@,
            },
            Msg::PrepareSquash { repo_id } => MsgView::PrepareSquash { repo_id: *repo_id },
            Msg::LoadInteractiveRebaseSetup { repo_id, base } =>
                MsgView::LoadInteractiveRebaseSetup { repo_id: *repo_id, base: base@ },
            Msg::OpenInteractiveCherryPickSetup { repo_id, entries, source_colors } =>
                MsgView::OpenInteractiveCherryPickSetup {
                    repo_id: *repo_id,
                    entries: rebase_entries_view(entries@),
                    source_colors: source_colors_view(source_colors@),
                },
            Msg::SetHistoryAuthorFilter { repo_id, author } => MsgView::SetHistoryAuthorFilter {
                repo_id: *repo_id,
                author: opt_view(*author),
            },
            Msg::FetchAll { repo_id } => MsgView::FetchAll { repo_id: *repo_id },
            Msg::ApplyWorktreePatch { repo_id, patch, reverse } => MsgView::ApplyWorktreePatch {
                repo_id: *repo_id,
                patch: patch@,
                reverse: *reverse,
            },
            Msg::StageHunk { repo_id, patch } => MsgView::StageHunk {
                repo_id: *repo_id,
                patch: patch@,
            },
            Msg::UnstageHunk { repo_id, patch } => MsgView::UnstageHunk {
                repo_id: *repo_id,
                patch: patch@,
            },
            Msg::ClearDiffSelection { repo_id } => MsgView::ClearDiffSelection { repo_id: *repo_id },
            Msg::DiscardWorktreeChangesPath { repo_id, path } => MsgView::DiscardWorktreeChangesPath {
                repo_id: *repo_id,
                path: path@,
            },
            Msg::DiscardWorktreeChangesPaths { repo_id, paths } =>
                MsgView::DiscardWorktreeChangesPaths { repo_id: *repo_id, paths: strs_view(paths@) },
            Msg::ResetBrowseToLive { repo_id } => MsgView::ResetBrowseToLive { repo_id: *repo_id },
            Msg::SelectConflictDiff { repo_id, path } => MsgView::SelectConflictDiff { repo_id: *repo_id, path: path@ },
            Msg::SetActiveRepo { repo_id } => MsgView::SetActiveRepo { repo_id: *repo_id },
            Msg::CloseRepo { repo_id } => MsgView::CloseRepo { repo_id: *repo_id },
            Msg::CloseRepos { repo_ids, activate_after } => MsgView::CloseRepos { repo_ids: repo_ids@, activate_after: *activate_after },
            Msg::CheckoutBranch { repo_id, name } => MsgView::CheckoutBranch { repo_id: *repo_id, name: name@ },
            Msg::LaunchMergetool { repo_id, path } => MsgView::LaunchMergetool { repo_id: *repo_id, path: path@ },
            Msg::PruneMergedBranches { repo_id } => MsgView::PruneMergedBranches { repo_id: *repo_id },
            Msg::PruneLocalTags { repo_id } => MsgView::PruneLocalTags { repo_id: *repo_id },
            Msg::UpdateSubmodules { repo_id } => MsgView::UpdateSubmodules { repo_id: *repo_id },
            Msg::LoadSubmodule { repo_id, path } => MsgView::LoadSubmodule { repo_id: *repo_id, path: path@ },
            Msg::LoadWorktrees { repo_id } => MsgView::LoadWorktrees { repo_id: *repo_id },
            Msg::PullBranch { repo_id, remote, branch } => MsgView::PullBranch { repo_id: *repo_id, remote: remote@, branch: branch@ },
            Msg::MergeRef { repo_id, reference } => MsgView::MergeRef { repo_id: *repo_id, reference: reference@ },
            Msg::SquashRef { repo_id, reference } => MsgView::SquashRef { repo_id: *repo_id, reference: reference@ },
            Msg::ApplyStash { repo_id, index } => MsgView::ApplyStash { repo_id: *repo_id, index: *index },
            Msg::PopStash { repo_id, index } => MsgView::PopStash { repo_id: *repo_id, index: *index },
            Msg::Push { repo_id } => MsgView::Push { repo_id: *repo_id },
            Msg::SetUpstreamBranch { repo_id, branch, upstream } => MsgView::SetUpstreamBranch { repo_id: *repo_id, branch: branch@, upstream: upstream@ },
            Msg::UnsetUpstreamBranch { repo_id, branch } => MsgView::UnsetUpstreamBranch { repo_id: *repo_id, branch: branch@ },
            Msg::DeleteTag { repo_id, name } => MsgView::DeleteTag { repo_id: *repo_id, name: name@ },
            Msg::PushTag { repo_id, remote, name } => MsgView::PushTag { repo_id: *repo_id, remote: remote@, name: name@ },
            Msg::DeleteRemoteTag { repo_id, remote, name } => MsgView::DeleteRemoteTag { repo_id: *repo_id, remote: remote@, name: name@ },
            Msg::OpenRepo(path) => MsgView::OpenRepo(path@),
            Msg::LoadSubmodules { repo_id } => MsgView::LoadSubmodules { repo_id: *repo_id },
            Msg::EnsureSidebarData { repo_id, request } => MsgView::EnsureSidebarData {
                repo_id: *repo_id,
                request: *request,
            },
            Msg::LoadFileBrowser { repo_id, source } => MsgView::LoadFileBrowser {
                repo_id: *repo_id,
                source: source@,
            },
            Msg::StagePaths { repo_id, paths } => MsgView::StagePaths {
                repo_id: *repo_id,
                paths: strs_view(paths@),
            },
            Msg::ApplyVirtualBranch { repo_id, branch_id } => MsgView::ApplyVirtualBranch {
                repo_id: *repo_id,
                branch_id: *branch_id,
            },
            Msg::UnapplyVirtualBranch { repo_id, branch_id } => MsgView::UnapplyVirtualBranch {
                repo_id: *repo_id,
                branch_id: *branch_id,
            },
            Msg::DeleteVirtualBranch { repo_id, branch_id } => MsgView::DeleteVirtualBranch {
                repo_id: *repo_id,
                branch_id: *branch_id,
            },
            Msg::AssignPathToVirtualBranch { repo_id, branch_id, path } =>
                MsgView::AssignPathToVirtualBranch {
                    repo_id: *repo_id,
                    branch_id: *branch_id,
                    path: path@,
                },
            Msg::PruneVirtualBranches { repo_id, branch_ids } => MsgView::PruneVirtualBranches {
                repo_id: *repo_id,
                branch_ids: branch_ids@,
            },
            Msg::DropStash { repo_id, index } => MsgView::DropStash { repo_id: *repo_id, index: *index },
            Msg::LoadStashes { repo_id } => MsgView::LoadStashes { repo_id: *repo_id },
            Msg::SelectCommit { repo_id, commit_id } => MsgView::SelectCommit {
                repo_id: *repo_id,
                commit_id: commit_id@,
            },
            Msg::DeleteBranch { repo_id, name } => MsgView::DeleteBranch {
                repo_id: *repo_id,
                name: name@,
            },
            Msg::SetHistoryScope { repo_id, scope } => MsgView::SetHistoryScope {
                repo_id: *repo_id,
                scope: *scope,
            },
            Msg::Pull { repo_id, mode } => MsgView::Pull { repo_id: *repo_id, mode: *mode },
            Msg::RestoreSession { open_repos, active_repo } => MsgView::RestoreSession {
                open_repos: strs_view(open_repos@),
                active_repo: opt_str_view(*active_repo),
            },
            Msg::ReorderRepoTabs { repo_id, insert_before } => MsgView::ReorderRepoTabs {
                repo_id: *repo_id,
                insert_before: *insert_before,
            },
            Msg::ReloadRepo { repo_id } => MsgView::ReloadRepo { repo_id: *repo_id },
            Msg::RepoActivated { repo_id } => MsgView::RepoActivated { repo_id: *repo_id },
            Msg::RepoExternallyChanged { repo_id, change } => MsgView::RepoExternallyChanged {
                repo_id: *repo_id,
                change: *change,
            },
        }
    }
}

} // verus!
