//! Which popover is open, and the host that owns the application state the
//! popovers read.
use vstd::prelude::*;
use crate::model::{opt_str_view, AppState, AppStateView, DiffArea, RepoId};

verus! {

/// The two branch lists of the sidebar.
#[derive(Clone, Copy, Debug, PartialEq, Eq, Structural)]
pub enum BranchSection {
    Local,
    Remote,
}

#[derive(Clone, Copy, Debug, PartialEq, Eq, Structural)]
pub enum WorktreePopoverKind {
    AddPrompt,
    OpenPicker,
    RemovePicker,
    SectionMenu,
}

#[derive(Clone, Copy, Debug, PartialEq, Eq, Structural)]
pub enum SubmodulePopoverKind {
    OpenPicker,
    RemovePicker,
    SectionMenu,
}

#[derive(Clone, Copy, Debug, PartialEq, Eq, Structural)]
pub enum RepoPopoverKind {
    Worktree(WorktreePopoverKind),
    Submodule(SubmodulePopoverKind),
}

/// How far a reset moves the branch, index and working tree.
#[derive(Clone, Copy, Debug, PartialEq, Eq, Structural)]
pub enum ResetMode {
    Soft,
    Mixed,
    Hard,
}

/// A popover the UI can open.
#[derive(Clone, Debug, PartialEq, Eq)]
pub enum PopoverKind {
    CreateBranchFromRefPrompt { repo_id: RepoId },
    Repo { repo_id: RepoId, kind: RepoPopoverKind },
    BranchSectionMenu { repo_id: RepoId, section: BranchSection },
    StashPrompt,
    VirtualBranchMovePicker { repo_id: RepoId, patch: String, path: String },
    FileHistory { repo_id: RepoId, path: String },
    CreateTagPrompt { repo_id: RepoId, target: String },
    RebaseOntoConfirm { repo_id: RepoId, onto: String },
    ResetPrompt { repo_id: RepoId, target: String, mode: ResetMode },
    CommitMenu { repo_id: RepoId, commit_id: String },
    FileBrowserFileMenu { repo_id: RepoId, path: String },
    DiffHunkMenu { repo_id: RepoId, src_ix: usize },
    HistoryAuthorFilter { repo_id: RepoId },
    InteractiveRebaseActionMenu { ix: usize, can_squash: bool, can_drop: bool },
    InteractiveRebaseAutosquashMenu,
    CherryPickCommitConfirm { repo_id: RepoId, commit_id: String },
    SquashPrompt { repo_id: RepoId },
    StashDropConfirm { repo_id: RepoId, index: usize, message: String },
    DiscardChangesConfirm { repo_id: RepoId, area: DiffArea, path: Option<String> },
    CommitPrompt { repo_id: RepoId },
}

pub enum PopoverKindView {
    CreateBranchFromRefPrompt { repo_id: RepoId },
    Repo { repo_id: RepoId, kind: RepoPopoverKind },
    BranchSectionMenu { repo_id: RepoId, section: BranchSection },
    StashPrompt,
    VirtualBranchMovePicker { repo_id: RepoId, patch: Seq<char>, path: Seq<char> },
    FileHistory { repo_id: RepoId, path: Seq<char> },
    CreateTagPrompt { repo_id: RepoId, target: Seq<char> },
    RebaseOntoConfirm { repo_id: RepoId, onto: Seq<char> },
    ResetPrompt { repo_id: RepoId, target: Seq<char>, mode: ResetMode },
    CommitMenu { repo_id: RepoId, commit_id: Seq<char> },
    FileBrowserFileMenu { repo_id: RepoId, path: Seq<char> },
    DiffHunkMenu { repo_id: RepoId, src_ix: usize },
    HistoryAuthorFilter { repo_id: RepoId },
    InteractiveRebaseActionMenu { ix: usize, can_squash: bool, can_drop: bool },
    InteractiveRebaseAutosquashMenu,
    CherryPickCommitConfirm { repo_id: RepoId, commit_id: Seq<char> },
    SquashPrompt { repo_id: RepoId },
    StashDropConfirm { repo_id: RepoId, index: usize, message: Seq<char> },
    DiscardChangesConfirm { repo_id: RepoId, area: DiffArea, path: Option<Seq<char>> },
    CommitPrompt { repo_id: RepoId },
}

impl View for PopoverKind {
    type V = PopoverKindView;

    open spec fn view(&self) -> PopoverKindView {
        match self {
            PopoverKind::CreateBranchFromRefPrompt { repo_id } =>
                PopoverKindView::CreateBranchFromRefPrompt { repo_id: *repo_id },
            PopoverKind::Repo { repo_id, kind } => PopoverKindView::Repo {
                repo_id: *repo_id,
                kind: *kind,
            },
            PopoverKind::BranchSectionMenu { repo_id, section } =>
                PopoverKindView::BranchSectionMenu { repo_id: *repo_id, section: *section },
            PopoverKind::StashPrompt => PopoverKindView::StashPrompt,
            PopoverKind::VirtualBranchMovePicker { repo_id, patch, path } =>
                PopoverKindView::VirtualBranchMovePicker {
                    repo_id: *repo_id,
                    patch: patch@,
                    path: path@,
                },
            PopoverKind::FileHistory { repo_id, path } => PopoverKindView::FileHistory {
                repo_id: *repo_id,
                path: path@,
            },
            PopoverKind::CreateTagPrompt { repo_id, target } => PopoverKindView::CreateTagPrompt {
                repo_id: *repo_id,
                target: target@,
            },
            PopoverKind::RebaseOntoConfirm { repo_id, onto } =>
                PopoverKindView::RebaseOntoConfirm { repo_id: *repo_id, onto: onto@ },
            PopoverKind::ResetPrompt { repo_id, target, mode } => PopoverKindView::ResetPrompt {
                repo_id: *repo_id,
                target: target@,
                mode: *mode,
            },
            PopoverKind::CommitMenu { repo_id, commit_id } => PopoverKindView::CommitMenu {
                repo_id: *repo_id,
                commit_id: commit_id@,
            },
            PopoverKind::FileBrowserFileMenu { repo_id, path } =>
                PopoverKindView::FileBrowserFileMenu { repo_id: *repo_id, path: path@ },
            PopoverKind::DiffHunkMenu { repo_id, src_ix } => PopoverKindView::DiffHunkMenu {
                repo_id: *repo_id,
                src_ix: *src_ix,
            },
            PopoverKind::HistoryAuthorFilter { repo_id } => PopoverKindView::HistoryAuthorFilter {
                repo_id: *repo_id,
            },
            PopoverKind::InteractiveRebaseActionMenu { ix, can_squash, can_drop } =>
                PopoverKindView::InteractiveRebaseActionMenu {
                    ix: *ix,
                    can_squash: *can_squash,
                    can_drop: *can_drop,
                },
            PopoverKind::InteractiveRebaseAutosquashMenu =>
                PopoverKindView::InteractiveRebaseAutosquashMenu,
            PopoverKind::CherryPickCommitConfirm { repo_id, commit_id } =>
                PopoverKindView::CherryPickCommitConfirm {
                    repo_id: *repo_id,
                    commit_id: commit_id@,
                },
            PopoverKind::SquashPrompt { repo_id } => PopoverKindView::SquashPrompt {
                repo_id: *repo_id,
            },
            PopoverKind::StashDropConfirm { repo_id, index, message } => PopoverKindView::StashDropConfirm { repo_id: *repo_id, index: *index, message: message@ },
            PopoverKind::DiscardChangesConfirm { repo_id, area, path } => PopoverKindView::DiscardChangesConfirm { repo_id: *repo_id, area: *area, path: opt_str_view(*path) },
            PopoverKind::CommitPrompt { repo_id } => PopoverKindView::CommitPrompt { repo_id: *repo_id },
        }
    }
}

impl PopoverKind {
    /// A worktree popover of `repo_id`.
    pub fn worktree(repo_id: RepoId, kind: WorktreePopoverKind) -> (res: PopoverKind)
        ensures
            res@ == (PopoverKindView::Repo { repo_id, kind: RepoPopoverKind::Worktree(kind) }),
    {
        PopoverKind::Repo { repo_id, kind: RepoPopoverKind::Worktree(kind) }
    }

    /// A submodule popover of `repo_id`.
    pub fn submodule(repo_id: RepoId, kind: SubmodulePopoverKind) -> (res: PopoverKind)
        ensures
            res@ == (PopoverKindView::Repo { repo_id, kind: RepoPopoverKind::Submodule(kind) }),
    {
        PopoverKind::Repo { repo_id, kind: RepoPopoverKind::Submodule(kind) }
    }
}

/// Owns the application state the popovers read and the popover that is open.
pub struct PopoverHost {
    pub state: AppState,
    pub popover: Option<PopoverKind>,
}

pub struct PopoverHostView {
    pub state: AppStateView,
    pub popover: Option<PopoverKindView>,
}

impl View for PopoverHost {
    type V = PopoverHostView;

    open spec fn view(&self) -> PopoverHostView {
        PopoverHostView {
            state: self.state@,
            popover: match self.popover {
                Some(k) => Some(k@),
                None => None,
            },
        }
    }
}

impl PopoverHost {
    /// The repository the UI shows.
    pub fn active_repo_id(&self) -> (res: Option<RepoId>)
        ensures
            res == self@.state.active_repo,
    {
        self.state.active_repo
    }
}

} // verus!
