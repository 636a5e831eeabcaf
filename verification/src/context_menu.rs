//! Context menus: their model, the actions their entries trigger, and the
//! rules for picking the entry a key press or Enter activates.
use vstd::prelude::*;
use crate::find::{
    first_where, is_first_where, lemma_first_where_found, lemma_first_where_none,
    lemma_first_where_some,
};
use crate::model::{
    find_repo_index, find_repo_view, AppStateView, Branch, BranchView, DiffArea, DiffTarget, DiffTargetView,
    FileSource, FileSourceView, RepoId, RepoState, LogScope, PullMode, DiffWhitespaceMode,
};
use crate::find::lemma_map_push;
use crate::popover::{BranchSection, PopoverHost, PopoverKind, PopoverKindView};
use crate::text::{
    after_last, chars_of, concat, eq_ignore_ascii_case, keep_before_trailing, eq_ignore_ascii_case_str, is_ascii_alnum,
    ascii_lower, is_ascii_alnum_char, to_ascii_lower_char, string_of, trim, trimmed, rfind_char,
    sub_chars,
};

pub mod activation;
pub mod commit;
pub mod diff_hunk;
pub mod discard;
pub mod file_browser_file;
pub mod history_author_filter;
pub mod keys;

verus! {

/// What an interactive rebase does with one commit.
#[derive(Clone, Copy, Debug, PartialEq, Eq, Structural)]
pub enum InteractiveRebaseAction {
    Pick,
    Reword,
    Drop,
    Squash,
}

/// Where Auto Squash folds the commits that repeat a message.
#[derive(Clone, Copy, Debug, PartialEq, Eq, Structural)]
pub enum AutosquashMode {
    ToTop,
    Neighbor,
    ToBottom,
}

pub open spec fn autosquash_label(mode: AutosquashMode) -> Seq<char> {
    match mode {
        AutosquashMode::ToTop => "Squash to top"@,
        AutosquashMode::Neighbor => "Squash into neighbor"@,
        AutosquashMode::ToBottom => "Squash to bottom"@,
    }
}

impl AutosquashMode {
    /// The menu label of the mode.
    pub fn label(self) -> (res: &'static str)
        ensures
            res@ == autosquash_label(self),
    {
        match self {
            AutosquashMode::ToTop => "Squash to top",
            AutosquashMode::Neighbor => "Squash into neighbor",
            AutosquashMode::ToBottom => "Squash to bottom",
        }
    }
}

/// One commit of an interactive rebase (or cherry-pick) plan.
#[derive(Clone, Debug, PartialEq, Eq)]
pub struct InteractiveRebaseEntry {
    pub action: InteractiveRebaseAction,
    pub commit_id: String,
    pub summary: String,
    pub message: String,
    pub new_message: Option<String>,
}

pub struct InteractiveRebaseEntryView {
    pub action: InteractiveRebaseAction,
    pub commit_id: Seq<char>,
    pub summary: Seq<char>,
    pub message: Seq<char>,
    pub new_message: Option<Seq<char>>,
}

impl View for InteractiveRebaseEntry {
    type V = InteractiveRebaseEntryView;

    open spec fn view(&self) -> InteractiveRebaseEntryView {
        InteractiveRebaseEntryView {
            action: self.action,
            commit_id: self.commit_id@,
            summary: self.summary@,
            message: self.message@,
            new_message: opt_view(self.new_message),
        }
    }
}

pub open spec fn rebase_entries_view(v: Seq<InteractiveRebaseEntry>) -> Seq<InteractiveRebaseEntryView> {
    v.map_values(|e: InteractiveRebaseEntry| e@)
}

pub open spec fn source_colors_view(v: Seq<(String, u8)>) -> Seq<(Seq<char>, u8)> {
    v.map_values(|c: (String, u8)| (c.0@, c.1))
}

/// What activating a context-menu entry does.
#[derive(Clone, Debug, PartialEq, Eq)]
pub enum ContextMenuAction {
    FetchAll { repo_id: RepoId },
    UseCommitMessage { message: String },
    SetInteractiveRebaseAction { ix: usize, action: InteractiveRebaseAction },
    SetInteractiveRebaseAutosquashMode { mode: AutosquashMode },
    StageHunk { repo_id: RepoId, src_ix: usize },
    UnstageHunk { repo_id: RepoId, src_ix: usize },
    ApplyWorktreePatch { repo_id: RepoId, patch: String, reverse: bool },
    OpenPopover { kind: PopoverKind },
    SetHistoryAuthorFilter { repo_id: RepoId, author: Option<String> },
    SelectDiff { repo_id: RepoId, target: DiffTarget },
    OpenFileContent { repo_id: RepoId, source: FileSource, path: String },
    OpenFile { repo_id: RepoId, path: String },
    OpenFileLocation { repo_id: RepoId, path: String },
    CopyText { text: String },
    SquashSelectedCommits { repo_id: RepoId },
    OpenInteractiveCherryPickSetup {
        repo_id: RepoId,
        entries: Vec<InteractiveRebaseEntry>,
        source_colors: Vec<(String, u8)>,
    },
    BrowseRepositoryAtCommit { repo_id: RepoId, commit_id: String },
    MarkForComparison { repo_id: RepoId, commit_id: String, label: String },
    CompareWithWorkingTree { repo_id: RepoId, commit_id: String, label: String },
    CompareWithMarked { repo_id: RepoId, commit_id: String, label: String },
    ClearComparisonMark { repo_id: RepoId },
    ExportPatch { repo_id: RepoId, commit_id: String },
    CheckoutCommit { repo_id: RepoId, commit_id: String },
    CherryPickCommit { repo_id: RepoId, commit_id: String },
    RevertCommit { repo_id: RepoId, commit_id: String },
    LoadInteractiveRebaseSetup { repo_id: RepoId, base: String },
    ResetBrowseToLive { repo_id: RepoId },
    SelectConflictDiff { repo_id: RepoId, path: String },
    ActivateRepo { repo_id: RepoId },
    CloseRepo { repo_id: RepoId },
    CloseRepos { repo_ids: Vec<RepoId>, activate_after: Option<RepoId> },
    CheckoutBranch { repo_id: RepoId, name: String },
    LaunchMergetool { repo_id: RepoId, path: String },
    PruneMergedBranches { repo_id: RepoId },
    PruneLocalTags { repo_id: RepoId },
    UpdateSubmodules { repo_id: RepoId },
    LoadSubmodule { repo_id: RepoId, path: String },
    LoadWorktrees { repo_id: RepoId },
    PullBranch { repo_id: RepoId, remote: String, branch: String },
    MergeRef { repo_id: RepoId, reference: String },
    SquashRef { repo_id: RepoId, reference: String },
    ApplyStash { repo_id: RepoId, index: usize },
    PopStash { repo_id: RepoId, index: usize },
    Push { repo_id: RepoId },
    SetUpstreamBranch { repo_id: RepoId, branch: String, upstream: String },
    UnsetUpstreamBranch { repo_id: RepoId, branch: String },
    DeleteTag { repo_id: RepoId, name: String },
    PushTag { repo_id: RepoId, remote: String, name: String },
    DeleteRemoteTag { repo_id: RepoId, remote: String, name: String },
    OpenRepo { path: String },
    ApplyIndexPatch { repo_id: RepoId, patch: String, reverse: bool },
    DropStashConfirm { repo_id: RepoId, index: usize, message: String },
    DiscardWorktreeChangesSelectionOrPath { repo_id: RepoId, area: DiffArea, path: String },
    SetDiffRevealWhitespaceChars { enabled: bool },
    SetDiffWordWrap { enabled: bool },
    SetDiffShowLineNumbers { enabled: bool },
    SetCommitAmendEnabled { enabled: bool },
    SetCommitPushAfterEnabled { enabled: bool },
    SetMergetoolAutoAdvance { enabled: bool },
    SetMergetoolOutputScrollSync { enabled: bool },
    SetMergetoolShowLineNumbers { enabled: bool },
    SetMergetoolThreeWayView { enabled: bool },
    ToggleMergetoolCollapseUnchanged,
    OpenRepositoryLocation { path: String },
    TerminalCopy { repo_id: RepoId },
    TerminalPaste { repo_id: RepoId },
    TerminalSelectAll { repo_id: RepoId },
    TerminalClear { repo_id: RepoId },
    TerminalOpenExternal { repo_id: RepoId },
    CopyDiffSelection { text: String },
    DeleteBranch { repo_id: RepoId, name: String },
    ToggleBranchPin { repo_id: RepoId, section: BranchSection, name: String },
    SetHistoryScope { repo_id: RepoId, scope: LogScope },
    SetDiffWhitespaceMode { mode: DiffWhitespaceMode },
    Pull { repo_id: RepoId, mode: PullMode },
}

pub enum ContextMenuActionView {
    FetchAll { repo_id: RepoId },
    UseCommitMessage { message: Seq<char> },
    SetInteractiveRebaseAction { ix: usize, action: InteractiveRebaseAction },
    SetInteractiveRebaseAutosquashMode { mode: AutosquashMode },
    StageHunk { repo_id: RepoId, src_ix: usize },
    UnstageHunk { repo_id: RepoId, src_ix: usize },
    ApplyWorktreePatch { repo_id: RepoId, patch: Seq<char>, reverse: bool },
    OpenPopover { kind: PopoverKindView },
    SetHistoryAuthorFilter { repo_id: RepoId, author: Option<Seq<char>> },
    SelectDiff { repo_id: RepoId, target: DiffTargetView },
    OpenFileContent { repo_id: RepoId, source: FileSourceView, path: Seq<char> },
    OpenFile { repo_id: RepoId, path: Seq<char> },
    OpenFileLocation { repo_id: RepoId, path: Seq<char> },
    CopyText { text: Seq<char> },
    SquashSelectedCommits { repo_id: RepoId },
    OpenInteractiveCherryPickSetup {
        repo_id: RepoId,
        entries: Seq<InteractiveRebaseEntryView>,
        source_colors: Seq<(Seq<char>, u8)>,
    },
    BrowseRepositoryAtCommit { repo_id: RepoId, commit_id: Seq<char> },
    MarkForComparison { repo_id: RepoId, commit_id: Seq<char>, label: Seq<char> },
    CompareWithWorkingTree { repo_id: RepoId, commit_id: Seq<char>, label: Seq<char> },
    CompareWithMarked { repo_id: RepoId, commit_id: Seq<char>, label: Seq<char> },
    ClearComparisonMark { repo_id: RepoId },
    ExportPatch { repo_id: RepoId, commit_id: Seq<char> },
    CheckoutCommit { repo_id: RepoId, commit_id: Seq<char> },
    CherryPickCommit { repo_id: RepoId, commit_id: Seq<char> },
    RevertCommit { repo_id: RepoId, commit_id: Seq<char> },
    LoadInteractiveRebaseSetup { repo_id: RepoId, base: Seq<char> },
    ResetBrowseToLive { repo_id: RepoId },
    SelectConflictDiff { repo_id: RepoId, path: Seq<char> },
    ActivateRepo { repo_id: RepoId },
    CloseRepo { repo_id: RepoId },
    CloseRepos { repo_ids: Seq<RepoId>, activate_after: Option<RepoId> },
    CheckoutBranch { repo_id: RepoId, name: Seq<char> },
    LaunchMergetool { repo_id: RepoId, path: Seq<char> },
    PruneMergedBranches { repo_id: RepoId },
    PruneLocalTags { repo_id: RepoId },
    UpdateSubmodules { repo_id: RepoId },
    LoadSubmodule { repo_id: RepoId, path: Seq<char> },
    LoadWorktrees { repo_id: RepoId },
    PullBranch { repo_id: RepoId, remote: Seq<char>, branch: Seq<char> },
    MergeRef { repo_id: RepoId, reference: Seq<char> },
    SquashRef { repo_id: RepoId, reference: Seq<char> },
    ApplyStash { repo_id: RepoId, index: usize },
    PopStash { repo_id: RepoId, index: usize },
    Push { repo_id: RepoId },
    SetUpstreamBranch { repo_id: RepoId, branch: Seq<char>, upstream: Seq<char> },
    UnsetUpstreamBranch { repo_id: RepoId, branch: Seq<char> },
    DeleteTag { repo_id: RepoId, name: Seq<char> },
    PushTag { repo_id: RepoId, remote: Seq<char>, name: Seq<char> },
    DeleteRemoteTag { repo_id: RepoId, remote: Seq<char>, name: Seq<char> },
    OpenRepo { path: Seq<char> },
    ApplyIndexPatch { repo_id: RepoId, patch: Seq<char>, reverse: bool },
    DropStashConfirm { repo_id: RepoId, index: usize, message: Seq<char> },
    DiscardWorktreeChangesSelectionOrPath { repo_id: RepoId, area: DiffArea, path: Seq<char> },
    SetDiffRevealWhitespaceChars { enabled: bool },
    SetDiffWordWrap { enabled: bool },
    SetDiffShowLineNumbers { enabled: bool },
    SetCommitAmendEnabled { enabled: bool },
    SetCommitPushAfterEnabled { enabled: bool },
    SetMergetoolAutoAdvance { enabled: bool },
    SetMergetoolOutputScrollSync { enabled: bool },
    SetMergetoolShowLineNumbers { enabled: bool },
    SetMergetoolThreeWayView { enabled: bool },
    ToggleMergetoolCollapseUnchanged,
    OpenRepositoryLocation { path: Seq<char> },
    TerminalCopy { repo_id: RepoId },
    TerminalPaste { repo_id: RepoId },
    TerminalSelectAll { repo_id: RepoId },
    TerminalClear { repo_id: RepoId },
    TerminalOpenExternal { repo_id: RepoId },
    CopyDiffSelection { text: Seq<char> },
    DeleteBranch { repo_id: RepoId, name: Seq<char> },
    ToggleBranchPin { repo_id: RepoId, section: BranchSection, name: Seq<char> },
    SetHistoryScope { repo_id: RepoId, scope: LogScope },
    SetDiffWhitespaceMode { mode: DiffWhitespaceMode },
    Pull { repo_id: RepoId, mode: PullMode },
}

impl View for ContextMenuAction {
    type V = ContextMenuActionView;

    open spec fn view(&self) -> ContextMenuActionView {
        match self {
            ContextMenuAction::FetchAll { repo_id } => ContextMenuActionView::FetchAll {
                repo_id: *repo_id,
            },
            ContextMenuAction::UseCommitMessage { message } =>
                ContextMenuActionView::UseCommitMessage { message: message@ },
            ContextMenuAction::SetInteractiveRebaseAction { ix, action } =>
                ContextMenuActionView::SetInteractiveRebaseAction { ix: *ix, action: *action },
            ContextMenuAction::SetInteractiveRebaseAutosquashMode { mode } =>
                ContextMenuActionView::SetInteractiveRebaseAutosquashMode { mode: *mode },
            ContextMenuAction::StageHunk { repo_id, src_ix } => ContextMenuActionView::StageHunk {
                repo_id: *repo_id,
                src_ix: *src_ix,
            },
            ContextMenuAction::UnstageHunk { repo_id, src_ix } =>
                ContextMenuActionView::UnstageHunk { repo_id: *repo_id, src_ix: *src_ix },
            ContextMenuAction::ApplyWorktreePatch { repo_id, patch, reverse } =>
                ContextMenuActionView::ApplyWorktreePatch {
                    repo_id: *repo_id,
                    patch: patch@,
                    reverse: *reverse,
                },
            ContextMenuAction::OpenPopover { kind } => ContextMenuActionView::OpenPopover {
                kind: kind@,
            },
            ContextMenuAction::SetHistoryAuthorFilter { repo_id, author } =>
                ContextMenuActionView::SetHistoryAuthorFilter {
                    repo_id: *repo_id,
                    author: match author {
                        Some(a) => Some(a@),
                        None => None,
                    },
                },
            ContextMenuAction::SelectDiff { repo_id, target } => ContextMenuActionView::SelectDiff {
                repo_id: *repo_id,
                target: target@,
            },
            ContextMenuAction::OpenFileContent { repo_id, source, path } =>
                ContextMenuActionView::OpenFileContent {
                    repo_id: *repo_id,
                    source: source@,
                    path: path@,
                },
            ContextMenuAction::OpenFile { repo_id, path } => ContextMenuActionView::OpenFile {
                repo_id: *repo_id,
                path: path@,
            },
            ContextMenuAction::OpenFileLocation { repo_id, path } =>
                ContextMenuActionView::OpenFileLocation { repo_id: *repo_id, path: path@ },
            ContextMenuAction::CopyText { text } => ContextMenuActionView::CopyText { text: text@ },
            ContextMenuAction::SquashSelectedCommits { repo_id } =>
                ContextMenuActionView::SquashSelectedCommits { repo_id: *repo_id },
            ContextMenuAction::OpenInteractiveCherryPickSetup { repo_id, entries, source_colors } =>
                ContextMenuActionView::OpenInteractiveCherryPickSetup {
                    repo_id: *repo_id,
                    entries: rebase_entries_view(entries@),
                    source_colors: source_colors_view(source_colors@),
                },
            ContextMenuAction::BrowseRepositoryAtCommit { repo_id, commit_id } =>
                ContextMenuActionView::BrowseRepositoryAtCommit {
                    repo_id: *repo_id,
                    commit_id: commit_id@,
                },
            ContextMenuAction::MarkForComparison { repo_id, commit_id, label } =>
                ContextMenuActionView::MarkForComparison {
                    repo_id: *repo_id,
                    commit_id: commit_id@,
                    label: label@,
                },
            ContextMenuAction::CompareWithWorkingTree { repo_id, commit_id, label } =>
                ContextMenuActionView::CompareWithWorkingTree {
                    repo_id: *repo_id,
                    commit_id: commit_id@,
                    label: label@,
                },
            ContextMenuAction::CompareWithMarked { repo_id, commit_id, label } =>
                ContextMenuActionView::CompareWithMarked {
                    repo_id: *repo_id,
                    commit_id: commit_id@,
                    label: label@,
                },
            ContextMenuAction::ClearComparisonMark { repo_id } =>
                ContextMenuActionView::ClearComparisonMark { repo_id: *repo_id },
            ContextMenuAction::ExportPatch { repo_id, commit_id } =>
                ContextMenuActionView::ExportPatch { repo_id: *repo_id, commit_id: commit_id@ },
            ContextMenuAction::CheckoutCommit { repo_id, commit_id } =>
                ContextMenuActionView::CheckoutCommit { repo_id: *repo_id, commit_id: commit_id@ },
            ContextMenuAction::CherryPickCommit { repo_id, commit_id } =>
                ContextMenuActionView::CherryPickCommit {
                    repo_id: *repo_id,
                    commit_id: commit_id@,
                },
            ContextMenuAction::RevertCommit { repo_id, commit_id } =>
                ContextMenuActionView::RevertCommit { repo_id: *repo_id, commit_id: commit_id@ },
            ContextMenuAction::LoadInteractiveRebaseSetup { repo_id, base } =>
                ContextMenuActionView::LoadInteractiveRebaseSetup { repo_id: *repo_id, base: base@ },
            ContextMenuAction::ResetBrowseToLive { repo_id } => ContextMenuActionView::ResetBrowseToLive { repo_id: *repo_id },
            ContextMenuAction::SelectConflictDiff { repo_id, path } => ContextMenuActionView::SelectConflictDiff { repo_id: *repo_id, path: path@ },
            ContextMenuAction::ActivateRepo { repo_id } => ContextMenuActionView::ActivateRepo { repo_id: *repo_id },
            ContextMenuAction::CloseRepo { repo_id } => ContextMenuActionView::CloseRepo { repo_id: *repo_id },
            ContextMenuAction::CloseRepos { repo_ids, activate_after } => ContextMenuActionView::CloseRepos { repo_ids: repo_ids@, activate_after: *activate_after },
            ContextMenuAction::CheckoutBranch { repo_id, name } => ContextMenuActionView::CheckoutBranch { repo_id: *repo_id, name: name@ },
            ContextMenuAction::LaunchMergetool { repo_id, path } => ContextMenuActionView::LaunchMergetool { repo_id: *repo_id, path: path@ },
            ContextMenuAction::PruneMergedBranches { repo_id } => ContextMenuActionView::PruneMergedBranches { repo_id: *repo_id },
            ContextMenuAction::PruneLocalTags { repo_id } => ContextMenuActionView::PruneLocalTags { repo_id: *repo_id },
            ContextMenuAction::UpdateSubmodules { repo_id } => ContextMenuActionView::UpdateSubmodules { repo_id: *repo_id },
            ContextMenuAction::LoadSubmodule { repo_id, path } => ContextMenuActionView::LoadSubmodule { repo_id: *repo_id, path: path@ },
            ContextMenuAction::LoadWorktrees { repo_id } => ContextMenuActionView::LoadWorktrees { repo_id: *repo_id },
            ContextMenuAction::PullBranch { repo_id, remote, branch } => ContextMenuActionView::PullBranch { repo_id: *repo_id, remote: remote@, branch: branch@ },
            ContextMenuAction::MergeRef { repo_id, reference } => ContextMenuActionView::MergeRef { repo_id: *repo_id, reference: reference@ },
            ContextMenuAction::SquashRef { repo_id, reference } => ContextMenuActionView::SquashRef { repo_id: *repo_id, reference: reference@ },
            ContextMenuAction::ApplyStash { repo_id, index } => ContextMenuActionView::ApplyStash { repo_id: *repo_id, index: *index },
            ContextMenuAction::PopStash { repo_id, index } => ContextMenuActionView::PopStash { repo_id: *repo_id, index: *index },
            ContextMenuAction::Push { repo_id } => ContextMenuActionView::Push { repo_id: *repo_id },
            ContextMenuAction::SetUpstreamBranch { repo_id, branch, upstream } => ContextMenuActionView::SetUpstreamBranch { repo_id: *repo_id, branch: branch@, upstream: upstream@ },
            ContextMenuAction::UnsetUpstreamBranch { repo_id, branch } => ContextMenuActionView::UnsetUpstreamBranch { repo_id: *repo_id, branch: branch@ },
            ContextMenuAction::DeleteTag { repo_id, name } => ContextMenuActionView::DeleteTag { repo_id: *repo_id, name: name@ },
            ContextMenuAction::PushTag { repo_id, remote, name } => ContextMenuActionView::PushTag { repo_id: *repo_id, remote: remote@, name: name@ },
            ContextMenuAction::DeleteRemoteTag { repo_id, remote, name } => ContextMenuActionView::DeleteRemoteTag { repo_id: *repo_id, remote: remote@, name: name@ },
            ContextMenuAction::OpenRepo { path } => ContextMenuActionView::OpenRepo { path: path@ },
            ContextMenuAction::ApplyIndexPatch { repo_id, patch, reverse } => ContextMenuActionView::ApplyIndexPatch { repo_id: *repo_id, patch: patch@, reverse: *reverse },
            ContextMenuAction::DropStashConfirm { repo_id, index, message } => ContextMenuActionView::DropStashConfirm { repo_id: *repo_id, index: *index, message: message@ },
            ContextMenuAction::DiscardWorktreeChangesSelectionOrPath { repo_id, area, path } => ContextMenuActionView::DiscardWorktreeChangesSelectionOrPath { repo_id: *repo_id, area: *area, path: path@ },
            ContextMenuAction::SetDiffRevealWhitespaceChars { enabled } => ContextMenuActionView::SetDiffRevealWhitespaceChars { enabled: *enabled },
            ContextMenuAction::SetDiffWordWrap { enabled } => ContextMenuActionView::SetDiffWordWrap { enabled: *enabled },
            ContextMenuAction::SetDiffShowLineNumbers { enabled } => ContextMenuActionView::SetDiffShowLineNumbers { enabled: *enabled },
            ContextMenuAction::SetCommitAmendEnabled { enabled } => ContextMenuActionView::SetCommitAmendEnabled { enabled: *enabled },
            ContextMenuAction::SetCommitPushAfterEnabled { enabled } => ContextMenuActionView::SetCommitPushAfterEnabled { enabled: *enabled },
            ContextMenuAction::SetMergetoolAutoAdvance { enabled } => ContextMenuActionView::SetMergetoolAutoAdvance { enabled: *enabled },
            ContextMenuAction::SetMergetoolOutputScrollSync { enabled } => ContextMenuActionView::SetMergetoolOutputScrollSync { enabled: *enabled },
            ContextMenuAction::SetMergetoolShowLineNumbers { enabled } => ContextMenuActionView::SetMergetoolShowLineNumbers { enabled: *enabled },
            ContextMenuAction::SetMergetoolThreeWayView { enabled } => ContextMenuActionView::SetMergetoolThreeWayView { enabled: *enabled },
            ContextMenuAction::ToggleMergetoolCollapseUnchanged => ContextMenuActionView::ToggleMergetoolCollapseUnchanged,
            ContextMenuAction::OpenRepositoryLocation { path } => ContextMenuActionView::OpenRepositoryLocation { path: path@ },
            ContextMenuAction::TerminalCopy { repo_id } => ContextMenuActionView::TerminalCopy { repo_id: *repo_id },
            ContextMenuAction::TerminalPaste { repo_id } => ContextMenuActionView::TerminalPaste { repo_id: *repo_id },
            ContextMenuAction::TerminalSelectAll { repo_id } => ContextMenuActionView::TerminalSelectAll { repo_id: *repo_id },
            ContextMenuAction::TerminalClear { repo_id } => ContextMenuActionView::TerminalClear { repo_id: *repo_id },
            ContextMenuAction::TerminalOpenExternal { repo_id } => ContextMenuActionView::TerminalOpenExternal { repo_id: *repo_id },
            ContextMenuAction::CopyDiffSelection { text } => ContextMenuActionView::CopyDiffSelection { text: text@ },
            ContextMenuAction::DeleteBranch { repo_id, name } => ContextMenuActionView::DeleteBranch { repo_id: *repo_id, name: name@ },
            ContextMenuAction::ToggleBranchPin { repo_id, section, name } => ContextMenuActionView::ToggleBranchPin { repo_id: *repo_id, section: *section, name: name@ },
            ContextMenuAction::SetHistoryScope { repo_id, scope } => ContextMenuActionView::SetHistoryScope { repo_id: *repo_id, scope: *scope },
            ContextMenuAction::SetDiffWhitespaceMode { mode } => ContextMenuActionView::SetDiffWhitespaceMode { mode: *mode },
            ContextMenuAction::Pull { repo_id, mode } => ContextMenuActionView::Pull { repo_id: *repo_id, mode: *mode },
        }
    }
}

/// One row of a context menu.
#[derive(Clone, Debug, PartialEq, Eq)]
pub enum ContextMenuItem {
    Header(String),
    Label(String),
    Description(String),
    Separator,
    Entry {
        label: String,
        icon: Option<String>,
        shortcut: Option<String>,
        disabled: bool,
        action: Box<ContextMenuAction>,
    },
}

pub enum ContextMenuItemView {
    Header(Seq<char>),
    Label(Seq<char>),
    Description(Seq<char>),
    Separator,
    Entry {
        label: Seq<char>,
        icon: Option<Seq<char>>,
        shortcut: Option<Seq<char>>,
        disabled: bool,
        action: ContextMenuActionView,
    },
}

pub open spec fn opt_view(o: Option<String>) -> Option<Seq<char>> {
    match o {
        Some(s) => Some(s@),
        None => None,
    }
}

impl View for ContextMenuItem {
    type V = ContextMenuItemView;

    open spec fn view(&self) -> ContextMenuItemView {
        match self {
            ContextMenuItem::Header(t) => ContextMenuItemView::Header(t@),
            ContextMenuItem::Label(t) => ContextMenuItemView::Label(t@),
            ContextMenuItem::Description(t) => ContextMenuItemView::Description(t@),
            ContextMenuItem::Separator => ContextMenuItemView::Separator,
            ContextMenuItem::Entry { label, icon, shortcut, disabled, action } =>
                ContextMenuItemView::Entry {
                    label: label@,
                    icon: opt_view(*icon),
                    shortcut: opt_view(*shortcut),
                    disabled: *disabled,
                    action: (**action)@,
                },
        }
    }
}

pub open spec fn items_view(items: Seq<ContextMenuItem>) -> Seq<ContextMenuItemView> {
    items.map_values(|i: ContextMenuItem| i@)
}

/// The rows of a context menu, top to bottom.
#[derive(Clone, Debug, PartialEq, Eq)]
pub struct ContextMenuModel {
    pub items: Vec<ContextMenuItem>,
}

impl View for ContextMenuModel {
    type V = Seq<ContextMenuItemView>;

    open spec fn view(&self) -> Seq<ContextMenuItemView> {
        items_view(self.items@)
    }
}

/// An entry that is not disabled: the only rows the keyboard can land on.
pub open spec fn is_enabled_entry(item: ContextMenuItemView) -> bool {
    item matches ContextMenuItemView::Entry { disabled, .. } && !disabled
}

/// Row `ix` exists and is an enabled entry.
pub open spec fn selectable(items: Seq<ContextMenuItemView>, ix: int) -> bool {
    0 <= ix < items.len() && is_enabled_entry(items[ix])
}

/// The first enabled entry, if any.
pub open spec fn first_selectable(items: Seq<ContextMenuItemView>) -> Option<int> {
    first_where(items, |item: ContextMenuItemView| is_enabled_entry(item))
}

impl ContextMenuModel {
    pub fn new(items: Vec<ContextMenuItem>) -> (res: ContextMenuModel)
        ensures
            res@ == items_view(items@),
    {
        ContextMenuModel { items }
    }

    /// Whether row `ix` is an enabled entry.
    pub fn is_selectable(&self, ix: usize) -> (res: bool)
        ensures
            res == selectable(self@, ix as int),
    {
        if ix < self.items.len() {
            match &self.items[ix] {
                ContextMenuItem::Entry { disabled, .. } => !*disabled,
                _ => false,
            }
        } else {
            false
        }
    }

    /// The first enabled entry.
    pub fn first_selectable(&self) -> (res: Option<usize>)
        ensures
            match res {
                Some(ix) => first_selectable(self@) == Some(ix as int),
                None => first_selectable(self@) is None,
            },
    {
        let ghost p = |item: ContextMenuItemView| is_enabled_entry(item);
        let mut i: usize = 0;
        while i < self.items.len()
            invariant
                i <= self.items.len(),
                self@.len() == self.items.len(),
                p == (|item: ContextMenuItemView| is_enabled_entry(item)),
                forall|j: int| 0 <= j < i ==> !p(#[trigger] self@[j]),
            decreases self.items.len() - i,
        {
            if self.is_selectable(i) {
                proof {
                    assert(is_first_where(self@, p, i as int));
                    lemma_first_where_found(self@, p, i as int);
                }
                return Some(i);
            }
            i += 1;
        }
        proof {
            lemma_first_where_none(self@, p);
        }
        None
    }
}

/// An enabled entry with an icon and no shortcut.
pub open spec fn icon_entry(
    label: Seq<char>,
    icon: Seq<char>,
    action: ContextMenuActionView,
) -> ContextMenuItemView {
    ContextMenuItemView::Entry { label, icon: Some(icon), shortcut: None, disabled: false, action }
}

pub fn icon_entry_item(label: String, icon: &str, action: ContextMenuAction) -> (res:
    ContextMenuItem)
    ensures
        res@ == icon_entry(label@, icon@, action@),
{
    ContextMenuItem::Entry {
        label,
        icon: Some(icon.to_owned()),
        shortcut: None,
        disabled: false,
        action: Box::new(action),
    }
}

/// An entry with every field given.
pub open spec fn full_entry(
    label: Seq<char>,
    icon: Seq<char>,
    shortcut: Option<Seq<char>>,
    disabled: bool,
    action: ContextMenuActionView,
) -> ContextMenuItemView {
    ContextMenuItemView::Entry { label, icon: Some(icon), shortcut, disabled, action }
}

pub fn full_entry_item(
    label: String,
    icon: &str,
    shortcut: Option<&str>,
    disabled: bool,
    action: ContextMenuAction,
) -> (res: ContextMenuItem)
    ensures
        res@ == full_entry(
            label@,
            icon@,
            match shortcut {
                Some(s) => Some(s@),
                None => None,
            },
            disabled,
            action@,
        ),
{
    ContextMenuItem::Entry {
        label,
        icon: Some(icon.to_owned()),
        shortcut: match shortcut {
            Some(s) => Some(s.to_owned()),
            None => None,
        },
        disabled,
        action: Box::new(action),
    }
}

/// Appends all of `more` to `items`.
pub fn append_items(items: &mut Vec<ContextMenuItem>, more: Vec<ContextMenuItem>)
    ensures
        items_view(final(items)@) == items_view(old(items)@) + items_view(more@),
{
    let ghost start = items_view(items@);
    let ghost mv = items_view(more@);
    let mut rest = more;
    let mut taken: Vec<ContextMenuItem> = Vec::new();
    let mut k: usize = 0;
    let n = rest.len();
    assert(start + mv.take(0) =~= start);
    while k < n
        invariant
            k <= n,
            n == rest.len(),
            mv == items_view(rest@),
            items_view(items@) == start + mv.take(k as int),
        decreases n - k,
    {
        let item = copy_item(&rest[k]);
        push_item(items, item);
        assert(start + mv.take(k + 1) =~= (start + mv.take(k as int)).push(mv[k as int]));
        k += 1;
    }
    assert(mv.take(n as int) =~= mv);
}

/// A copy of `item` with the same view.
pub fn copy_item(item: &ContextMenuItem) -> (res: ContextMenuItem)
    ensures
        res@ == item@,
{
    match item {
        ContextMenuItem::Header(t) => ContextMenuItem::Header(t.clone()),
        ContextMenuItem::Label(t) => ContextMenuItem::Label(t.clone()),
        ContextMenuItem::Description(t) => ContextMenuItem::Description(t.clone()),
        ContextMenuItem::Separator => ContextMenuItem::Separator,
        ContextMenuItem::Entry { label, icon, shortcut, disabled, action } => ContextMenuItem::Entry {
            label: label.clone(),
            icon: match icon {
                Some(i) => Some(i.clone()),
                None => None,
            },
            shortcut: match shortcut {
                Some(s) => Some(s.clone()),
                None => None,
            },
            disabled: *disabled,
            action: Box::new(copy_action(&**action)),
        },
    }
}

/// Appends `item` to `items`.
pub fn push_item(items: &mut Vec<ContextMenuItem>, item: ContextMenuItem)
    ensures
        items_view(final(items)@) == items_view(old(items)@).push(item@),
{
    let ghost before = items@;
    items.push(item);
    proof {
        lemma_map_push(before, item, |i: ContextMenuItem| i@);
    }
}

/// A copy of a list of repository ids.
pub fn copy_repo_ids(ids: &Vec<RepoId>) -> (res: Vec<RepoId>)
    ensures
        res@ == ids@,
{
    let mut out: Vec<RepoId> = Vec::new();
    let mut i: usize = 0;
    while i < ids.len()
        invariant
            i <= ids.len(),
            out@ == ids@.take(i as int),
        decreases ids.len() - i,
    {
        out.push(ids[i]);
        i += 1;
        assert(out@ =~= ids@.take(i as int));
    }
    assert(ids@.take(ids.len() as int) =~= ids@);
    out
}

/// A copy of `action` with the same view.
pub fn copy_action(action: &ContextMenuAction) -> (res: ContextMenuAction)
    ensures
        res@ == action@,
{
    match action {
        ContextMenuAction::FetchAll { repo_id } => ContextMenuAction::FetchAll { repo_id: *repo_id },
        ContextMenuAction::UseCommitMessage { message } => ContextMenuAction::UseCommitMessage {
            message: message.clone(),
        },
        ContextMenuAction::SetInteractiveRebaseAction { ix, action } =>
            ContextMenuAction::SetInteractiveRebaseAction { ix: *ix, action: *action },
        ContextMenuAction::SetInteractiveRebaseAutosquashMode { mode } =>
            ContextMenuAction::SetInteractiveRebaseAutosquashMode { mode: *mode },
        ContextMenuAction::StageHunk { repo_id, src_ix } => ContextMenuAction::StageHunk {
            repo_id: *repo_id,
            src_ix: *src_ix,
        },
        ContextMenuAction::UnstageHunk { repo_id, src_ix } => ContextMenuAction::UnstageHunk {
            repo_id: *repo_id,
            src_ix: *src_ix,
        },
        ContextMenuAction::ApplyWorktreePatch { repo_id, patch, reverse } =>
            ContextMenuAction::ApplyWorktreePatch {
                repo_id: *repo_id,
                patch: patch.clone(),
                reverse: *reverse,
            },
        ContextMenuAction::OpenPopover { kind } => ContextMenuAction::OpenPopover {
            kind: copy_popover_kind(kind),
        },
        ContextMenuAction::SetHistoryAuthorFilter { repo_id, author } =>
            ContextMenuAction::SetHistoryAuthorFilter {
                repo_id: *repo_id,
                author: match author {
                    Some(a) => Some(a.clone()),
                    None => None,
                },
            },
        ContextMenuAction::SelectDiff { repo_id, target } => ContextMenuAction::SelectDiff {
            repo_id: *repo_id,
            target: copy_diff_target(target),
        },
        ContextMenuAction::OpenFileContent { repo_id, source, path } =>
            ContextMenuAction::OpenFileContent {
                repo_id: *repo_id,
                source: copy_file_source(source),
                path: path.clone(),
            },
        ContextMenuAction::OpenFile { repo_id, path } => ContextMenuAction::OpenFile {
            repo_id: *repo_id,
            path: path.clone(),
        },
        ContextMenuAction::OpenFileLocation { repo_id, path } => ContextMenuAction::OpenFileLocation {
            repo_id: *repo_id,
            path: path.clone(),
        },
        ContextMenuAction::CopyText { text } => ContextMenuAction::CopyText { text: text.clone() },
        ContextMenuAction::SquashSelectedCommits { repo_id } =>
            ContextMenuAction::SquashSelectedCommits { repo_id: *repo_id },
        ContextMenuAction::OpenInteractiveCherryPickSetup { repo_id, entries, source_colors } =>
            ContextMenuAction::OpenInteractiveCherryPickSetup {
                repo_id: *repo_id,
                entries: copy_rebase_entries(entries),
                source_colors: copy_source_colors(source_colors),
            },
        ContextMenuAction::BrowseRepositoryAtCommit { repo_id, commit_id } =>
            ContextMenuAction::BrowseRepositoryAtCommit {
                repo_id: *repo_id,
                commit_id: commit_id.clone(),
            },
        ContextMenuAction::MarkForComparison { repo_id, commit_id, label } =>
            ContextMenuAction::MarkForComparison {
                repo_id: *repo_id,
                commit_id: commit_id.clone(),
                label: label.clone(),
            },
        ContextMenuAction::CompareWithWorkingTree { repo_id, commit_id, label } =>
            ContextMenuAction::CompareWithWorkingTree {
                repo_id: *repo_id,
                commit_id: commit_id.clone(),
                label: label.clone(),
            },
        ContextMenuAction::CompareWithMarked { repo_id, commit_id, label } =>
            ContextMenuAction::CompareWithMarked {
                repo_id: *repo_id,
                commit_id: commit_id.clone(),
                label: label.clone(),
            },
        ContextMenuAction::ClearComparisonMark { repo_id } =>
            ContextMenuAction::ClearComparisonMark { repo_id: *repo_id },
        ContextMenuAction::ExportPatch { repo_id, commit_id } => ContextMenuAction::ExportPatch {
            repo_id: *repo_id,
            commit_id: commit_id.clone(),
        },
        ContextMenuAction::CheckoutCommit { repo_id, commit_id } =>
            ContextMenuAction::CheckoutCommit { repo_id: *repo_id, commit_id: commit_id.clone() },
        ContextMenuAction::CherryPickCommit { repo_id, commit_id } =>
            ContextMenuAction::CherryPickCommit { repo_id: *repo_id, commit_id: commit_id.clone() },
        ContextMenuAction::RevertCommit { repo_id, commit_id } => ContextMenuAction::RevertCommit {
            repo_id: *repo_id,
            commit_id: commit_id.clone(),
        },
        ContextMenuAction::LoadInteractiveRebaseSetup { repo_id, base } =>
            ContextMenuAction::LoadInteractiveRebaseSetup { repo_id: *repo_id, base: base.clone() },
        ContextMenuAction::ResetBrowseToLive { repo_id } => ContextMenuAction::ResetBrowseToLive { repo_id: *repo_id },
        ContextMenuAction::SelectConflictDiff { repo_id, path } => ContextMenuAction::SelectConflictDiff { repo_id: *repo_id, path: path.clone() },
        ContextMenuAction::ActivateRepo { repo_id } => ContextMenuAction::ActivateRepo { repo_id: *repo_id },
        ContextMenuAction::CloseRepo { repo_id } => ContextMenuAction::CloseRepo { repo_id: *repo_id },
        ContextMenuAction::CloseRepos { repo_ids, activate_after } => ContextMenuAction::CloseRepos { repo_ids: copy_repo_ids(repo_ids), activate_after: *activate_after },
        ContextMenuAction::CheckoutBranch { repo_id, name } => ContextMenuAction::CheckoutBranch { repo_id: *repo_id, name: name.clone() },
        ContextMenuAction::LaunchMergetool { repo_id, path } => ContextMenuAction::LaunchMergetool { repo_id: *repo_id, path: path.clone() },
        ContextMenuAction::PruneMergedBranches { repo_id } => ContextMenuAction::PruneMergedBranches { repo_id: *repo_id },
        ContextMenuAction::PruneLocalTags { repo_id } => ContextMenuAction::PruneLocalTags { repo_id: *repo_id },
        ContextMenuAction::UpdateSubmodules { repo_id } => ContextMenuAction::UpdateSubmodules { repo_id: *repo_id },
        ContextMenuAction::LoadSubmodule { repo_id, path } => ContextMenuAction::LoadSubmodule { repo_id: *repo_id, path: path.clone() },
        ContextMenuAction::LoadWorktrees { repo_id } => ContextMenuAction::LoadWorktrees { repo_id: *repo_id },
        ContextMenuAction::PullBranch { repo_id, remote, branch } => ContextMenuAction::PullBranch { repo_id: *repo_id, remote: remote.clone(), branch: branch.clone() },
        ContextMenuAction::MergeRef { repo_id, reference } => ContextMenuAction::MergeRef { repo_id: *repo_id, reference: reference.clone() },
        ContextMenuAction::SquashRef { repo_id, reference } => ContextMenuAction::SquashRef { repo_id: *repo_id, reference: reference.clone() },
        ContextMenuAction::ApplyStash { repo_id, index } => ContextMenuAction::ApplyStash { repo_id: *repo_id, index: *index },
        ContextMenuAction::PopStash { repo_id, index } => ContextMenuAction::PopStash { repo_id: *repo_id, index: *index },
        ContextMenuAction::Push { repo_id } => ContextMenuAction::Push { repo_id: *repo_id },
        ContextMenuAction::SetUpstreamBranch { repo_id, branch, upstream } => ContextMenuAction::SetUpstreamBranch { repo_id: *repo_id, branch: branch.clone(), upstream: upstream.clone() },
        ContextMenuAction::UnsetUpstreamBranch { repo_id, branch } => ContextMenuAction::UnsetUpstreamBranch { repo_id: *repo_id, branch: branch.clone() },
        ContextMenuAction::DeleteTag { repo_id, name } => ContextMenuAction::DeleteTag { repo_id: *repo_id, name: name.clone() },
        ContextMenuAction::PushTag { repo_id, remote, name } => ContextMenuAction::PushTag { repo_id: *repo_id, remote: remote.clone(), name: name.clone() },
        ContextMenuAction::DeleteRemoteTag { repo_id, remote, name } => ContextMenuAction::DeleteRemoteTag { repo_id: *repo_id, remote: remote.clone(), name: name.clone() },
        ContextMenuAction::OpenRepo { path } => ContextMenuAction::OpenRepo { path: path.clone() },
        ContextMenuAction::ApplyIndexPatch { repo_id, patch, reverse } => ContextMenuAction::ApplyIndexPatch { repo_id: *repo_id, patch: patch.clone(), reverse: *reverse },
        ContextMenuAction::DropStashConfirm { repo_id, index, message } => ContextMenuAction::DropStashConfirm { repo_id: *repo_id, index: *index, message: message.clone() },
        ContextMenuAction::DiscardWorktreeChangesSelectionOrPath { repo_id, area, path } => ContextMenuAction::DiscardWorktreeChangesSelectionOrPath { repo_id: *repo_id, area: *area, path: path.clone() },
        ContextMenuAction::SetDiffRevealWhitespaceChars { enabled } => ContextMenuAction::SetDiffRevealWhitespaceChars { enabled: *enabled },
        ContextMenuAction::SetDiffWordWrap { enabled } => ContextMenuAction::SetDiffWordWrap { enabled: *enabled },
        ContextMenuAction::SetDiffShowLineNumbers { enabled } => ContextMenuAction::SetDiffShowLineNumbers { enabled: *enabled },
        ContextMenuAction::SetCommitAmendEnabled { enabled } => ContextMenuAction::SetCommitAmendEnabled { enabled: *enabled },
        ContextMenuAction::SetCommitPushAfterEnabled { enabled } => ContextMenuAction::SetCommitPushAfterEnabled { enabled: *enabled },
        ContextMenuAction::SetMergetoolAutoAdvance { enabled } => ContextMenuAction::SetMergetoolAutoAdvance { enabled: *enabled },
        ContextMenuAction::SetMergetoolOutputScrollSync { enabled } => ContextMenuAction::SetMergetoolOutputScrollSync { enabled: *enabled },
        ContextMenuAction::SetMergetoolShowLineNumbers { enabled } => ContextMenuAction::SetMergetoolShowLineNumbers { enabled: *enabled },
        ContextMenuAction::SetMergetoolThreeWayView { enabled } => ContextMenuAction::SetMergetoolThreeWayView { enabled: *enabled },
        ContextMenuAction::ToggleMergetoolCollapseUnchanged => ContextMenuAction::ToggleMergetoolCollapseUnchanged,
        ContextMenuAction::OpenRepositoryLocation { path } => ContextMenuAction::OpenRepositoryLocation { path: path.clone() },
        ContextMenuAction::TerminalCopy { repo_id } => ContextMenuAction::TerminalCopy { repo_id: *repo_id },
        ContextMenuAction::TerminalPaste { repo_id } => ContextMenuAction::TerminalPaste { repo_id: *repo_id },
        ContextMenuAction::TerminalSelectAll { repo_id } => ContextMenuAction::TerminalSelectAll { repo_id: *repo_id },
        ContextMenuAction::TerminalClear { repo_id } => ContextMenuAction::TerminalClear { repo_id: *repo_id },
        ContextMenuAction::TerminalOpenExternal { repo_id } => ContextMenuAction::TerminalOpenExternal { repo_id: *repo_id },
        ContextMenuAction::CopyDiffSelection { text } => ContextMenuAction::CopyDiffSelection { text: text.clone() },
        ContextMenuAction::DeleteBranch { repo_id, name } => ContextMenuAction::DeleteBranch { repo_id: *repo_id, name: name.clone() },
        ContextMenuAction::ToggleBranchPin { repo_id, section, name } => ContextMenuAction::ToggleBranchPin { repo_id: *repo_id, section: *section, name: name.clone() },
        ContextMenuAction::SetHistoryScope { repo_id, scope } => ContextMenuAction::SetHistoryScope { repo_id: *repo_id, scope: *scope },
        ContextMenuAction::SetDiffWhitespaceMode { mode } => ContextMenuAction::SetDiffWhitespaceMode { mode: *mode },
        ContextMenuAction::Pull { repo_id, mode } => ContextMenuAction::Pull { repo_id: *repo_id, mode: *mode },
    }
}

/// A copy of `target` with the same view.
pub fn copy_diff_target(target: &DiffTarget) -> (res: DiffTarget)
    ensures
        res@ == target@,
{
    match target {
        DiffTarget::WorkingTree { path, area } => DiffTarget::WorkingTree {
            path: path.clone(),
            area: *area,
        },
        DiffTarget::Commit { commit_id, path } => DiffTarget::Commit {
            commit_id: commit_id.clone(),
            path: match path {
                Some(p) => Some(p.clone()),
                None => None,
            },
        },
    }
}

/// A copy of `source` with the same view.
pub fn copy_file_source(source: &FileSource) -> (res: FileSource)
    ensures
        res@ == source@,
{
    match source {
        FileSource::WorkingDirectory => FileSource::WorkingDirectory,
        FileSource::Commit(c) => FileSource::Commit(c.clone()),
        FileSource::Branch(b) => FileSource::Branch(b.clone()),
    }
}

/// A copy of the plan entries with the same view.
pub fn copy_rebase_entries(entries: &Vec<InteractiveRebaseEntry>) -> (res: Vec<InteractiveRebaseEntry>)
    ensures
        rebase_entries_view(res@) == rebase_entries_view(entries@),
{
    let mut out: Vec<InteractiveRebaseEntry> = Vec::new();
    let mut i: usize = 0;
    while i < entries.len()
        invariant
            i <= entries.len(),
            rebase_entries_view(out@) == rebase_entries_view(entries@).take(i as int),
        decreases entries.len() - i,
    {
        let e = &entries[i];
        let copy = InteractiveRebaseEntry {
            action: e.action,
            commit_id: e.commit_id.clone(),
            summary: e.summary.clone(),
            message: e.message.clone(),
            new_message: match &e.new_message {
                Some(m) => Some(m.clone()),
                None => None,
            },
        };
        let ghost before = out@;
        out.push(copy);
        proof {
            lemma_map_push(before, copy, |e: InteractiveRebaseEntry| e@);
            assert(rebase_entries_view(entries@).take(i + 1) =~= rebase_entries_view(entries@).take(
                i as int,
            ).push(entries@[i as int]@));
        }
        i += 1;
    }
    assert(rebase_entries_view(entries@).take(entries@.len() as int) =~= rebase_entries_view(
        entries@,
    ));
    out
}

/// A copy of the source colors with the same view.
pub fn copy_source_colors(colors: &Vec<(String, u8)>) -> (res: Vec<(String, u8)>)
    ensures
        source_colors_view(res@) == source_colors_view(colors@),
{
    let mut out: Vec<(String, u8)> = Vec::new();
    let mut i: usize = 0;
    while i < colors.len()
        invariant
            i <= colors.len(),
            source_colors_view(out@) == source_colors_view(colors@).take(i as int),
        decreases colors.len() - i,
    {
        let copy = (colors[i].0.clone(), colors[i].1);
        let ghost before = out@;
        out.push(copy);
        proof {
            lemma_map_push(before, copy, |c: (String, u8)| (c.0@, c.1));
            assert(source_colors_view(colors@).take(i + 1) =~= source_colors_view(colors@).take(
                i as int,
            ).push((colors@[i as int].0@, colors@[i as int].1)));
        }
        i += 1;
    }
    assert(source_colors_view(colors@).take(colors@.len() as int) =~= source_colors_view(colors@));
    out
}

/// A copy of `kind` with the same view.
pub fn copy_popover_kind(kind: &PopoverKind) -> (res: PopoverKind)
    ensures
        res@ == kind@,
{
    match kind {
        PopoverKind::CreateBranchFromRefPrompt { repo_id } =>
            PopoverKind::CreateBranchFromRefPrompt { repo_id: *repo_id },
        PopoverKind::Repo { repo_id, kind } => PopoverKind::Repo { repo_id: *repo_id, kind: *kind },
        PopoverKind::BranchSectionMenu { repo_id, section } => PopoverKind::BranchSectionMenu {
            repo_id: *repo_id,
            section: *section,
        },
        PopoverKind::StashPrompt => PopoverKind::StashPrompt,
        PopoverKind::VirtualBranchMovePicker { repo_id, patch, path } =>
            PopoverKind::VirtualBranchMovePicker {
                repo_id: *repo_id,
                patch: patch.clone(),
                path: path.clone(),
            },
        PopoverKind::FileHistory { repo_id, path } => PopoverKind::FileHistory {
            repo_id: *repo_id,
            path: path.clone(),
        },
        PopoverKind::CreateTagPrompt { repo_id, target } => PopoverKind::CreateTagPrompt {
            repo_id: *repo_id,
            target: target.clone(),
        },
        PopoverKind::RebaseOntoConfirm { repo_id, onto } => PopoverKind::RebaseOntoConfirm {
            repo_id: *repo_id,
            onto: onto.clone(),
        },
        PopoverKind::ResetPrompt { repo_id, target, mode } => PopoverKind::ResetPrompt {
            repo_id: *repo_id,
            target: target.clone(),
            mode: *mode,
        },
        PopoverKind::CommitMenu { repo_id, commit_id } => PopoverKind::CommitMenu {
            repo_id: *repo_id,
            commit_id: commit_id.clone(),
        },
        PopoverKind::FileBrowserFileMenu { repo_id, path } => PopoverKind::FileBrowserFileMenu {
            repo_id: *repo_id,
            path: path.clone(),
        },
        PopoverKind::DiffHunkMenu { repo_id, src_ix } => PopoverKind::DiffHunkMenu {
            repo_id: *repo_id,
            src_ix: *src_ix,
        },
        PopoverKind::HistoryAuthorFilter { repo_id } => PopoverKind::HistoryAuthorFilter {
            repo_id: *repo_id,
        },
        PopoverKind::InteractiveRebaseActionMenu { ix, can_squash, can_drop } =>
            PopoverKind::InteractiveRebaseActionMenu {
                ix: *ix,
                can_squash: *can_squash,
                can_drop: *can_drop,
            },
        PopoverKind::InteractiveRebaseAutosquashMenu => PopoverKind::InteractiveRebaseAutosquashMenu,
        PopoverKind::CherryPickCommitConfirm { repo_id, commit_id } =>
            PopoverKind::CherryPickCommitConfirm { repo_id: *repo_id, commit_id: commit_id.clone() },
        PopoverKind::SquashPrompt { repo_id } => PopoverKind::SquashPrompt { repo_id: *repo_id },
        PopoverKind::StashDropConfirm { repo_id, index, message } => PopoverKind::StashDropConfirm { repo_id: *repo_id, index: *index, message: message.clone() },
        PopoverKind::DiscardChangesConfirm { repo_id, area, path } => PopoverKind::DiscardChangesConfirm { repo_id: *repo_id, area: *area, path: match path { Some(p) => Some(p.clone()), None => None } },
        PopoverKind::CommitPrompt { repo_id } => PopoverKind::CommitPrompt { repo_id: *repo_id },
    }
}

/// The action of row `ix` when that row is an entry (disabled or not).
pub fn context_menu_entry_action_at(model: &ContextMenuModel, ix: usize) -> (res: Option<
    ContextMenuAction,
>)
    ensures
        match res {
            Some(a) => 0 <= ix < model@.len() && (model@[ix as int] matches
                ContextMenuItemView::Entry { action, .. } && action == a@),
            None => !(0 <= ix < model@.len() && model@[ix as int] is Entry),
        },
{
    if ix < model.items.len() {
        match &model.items[ix] {
            ContextMenuItem::Entry { action, .. } => Some(copy_action(&**action)),
            _ => None,
        }
    } else {
        None
    }
}

/// The tooltip an entry shows: the full commit message (trimmed) of a
/// "use commit message" entry, when it is not blank; nothing otherwise.
pub open spec fn entry_tooltip(action: ContextMenuActionView) -> Option<Seq<char>> {
    match action {
        ContextMenuActionView::UseCommitMessage { message } => if trim(message).len() == 0 {
            None
        } else {
            Some(trim(message))
        },
        _ => None,
    }
}

pub fn context_menu_entry_tooltip(action: &ContextMenuAction) -> (res: Option<String>)
    ensures
        opt_view(res) == entry_tooltip(action@),
{
    match action {
        ContextMenuAction::UseCommitMessage { message } => {
            let text = trimmed(message.as_str());
            if text.as_str().is_empty() {
                None
            } else {
                Some(text)
            }
        },
        _ => None,
    }
}

/// The entry Enter activates: the selected row when it is an enabled entry,
/// else the first enabled entry.
pub open spec fn activate_entry_ix(items: Seq<ContextMenuItemView>, selected: Option<usize>) -> Option<
    int,
> {
    match selected {
        Some(ix) if selectable(items, ix as int) => Some(ix as int),
        _ => first_selectable(items),
    }
}

pub fn context_menu_activate_entry_ix(model: &ContextMenuModel, selected_ix: Option<usize>) -> (res:
    Option<usize>)
    ensures
        match res {
            Some(ix) => activate_entry_ix(model@, selected_ix) == Some(ix as int),
            None => activate_entry_ix(model@, selected_ix) is None,
        },
{
    match selected_ix {
        Some(ix) => {
            if model.is_selectable(ix) {
                return Some(ix);
            }
        },
        None => {},
    }
    model.first_selectable()
}

/// Enter never lands on a header, a separator or a disabled entry: the row
/// it activates is an enabled entry, and there is none only when the menu
/// has no enabled entry at all.
pub proof fn law_activated_entry_is_enabled(
    items: Seq<ContextMenuItemView>,
    selected: Option<usize>,
)
    ensures
        activate_entry_ix(items, selected) matches Some(i) ==> selectable(items, i),
        activate_entry_ix(items, selected) is None <==> forall|j: int|
            0 <= j < items.len() ==> !is_enabled_entry(#[trigger] items[j]),
{
    let p = |item: ContextMenuItemView| is_enabled_entry(item);
    if exists|j: int| 0 <= j < items.len() && is_enabled_entry(#[trigger] items[j]) {
        let j = choose|j: int| 0 <= j < items.len() && is_enabled_entry(#[trigger] items[j]);
        assert(p(items[j]));
        lemma_first_where_some(items, p, j);
    } else {
        assert forall|j: int| 0 <= j < items.len() implies !p(#[trigger] items[j]) by {}
        lemma_first_where_none(items, p);
    }
    match first_where(items, p) {
        Some(i) => {
            assert(is_first_where(items, p, i)) by {
                let k = choose|k: int| #[trigger] is_first_where(items, p, k);
            }
        },
        None => {},
    }
}

/// An enabled entry whose shortcut, after its last `+`, is `key` up to ASCII case.
pub open spec fn shortcut_hit(item: ContextMenuItemView, key: Seq<char>) -> bool {
    &&& item matches ContextMenuItemView::Entry { shortcut, disabled, .. }
    &&& !disabled
    &&& shortcut is Some
    &&& eq_ignore_ascii_case(after_last(shortcut->0, '+'), key)
}

/// The entry a single-character key press activates: the first enabled
/// entry whose shortcut key matches; no entry for a key of another length.
pub open spec fn shortcut_entry_ix(items: Seq<ContextMenuItemView>, key: Seq<char>) -> Option<int> {
    if key.len() != 1 {
        None
    } else {
        first_where(items, |item: ContextMenuItemView| shortcut_hit(item, key))
    }
}

/// A key press activates an enabled entry whose shortcut key is that key up
/// to ASCII case, and the first such one; only single-character keys do.
pub proof fn law_shortcut_activates_first_matching_entry(
    items: Seq<ContextMenuItemView>,
    key: Seq<char>,
)
    ensures
        shortcut_entry_ix(items, key) matches Some(i) ==> {
            &&& key.len() == 1
            &&& 0 <= i < items.len()
            &&& is_enabled_entry(items[i])
            &&& shortcut_hit(items[i], key)
            &&& forall|j: int| 0 <= j < i ==> !shortcut_hit(#[trigger] items[j], key)
        },
        key.len() == 1 && (exists|j: int| 0 <= j < items.len() && shortcut_hit(#[trigger] items[j], key))
            ==> shortcut_entry_ix(items, key) is Some,
{
    let p = |item: ContextMenuItemView| shortcut_hit(item, key);
    if key.len() == 1 {
        if exists|j: int| 0 <= j < items.len() && shortcut_hit(#[trigger] items[j], key) {
            let j = choose|j: int| 0 <= j < items.len() && shortcut_hit(#[trigger] items[j], key);
            assert(p(items[j]));
            lemma_first_where_some(items, p, j);
        }
        match first_where(items, p) {
            Some(i) => {
                assert(is_first_where(items, p, i)) by {
                    let k = choose|k: int| #[trigger] is_first_where(items, p, k);
                }
                assert forall|j: int| 0 <= j < i implies !shortcut_hit(#[trigger] items[j], key) by {
                    assert(!p(items[j]));
                }
            },
            None => {},
        }
    }
}

fn shortcut_key_matches(shortcut: &String, key: &str) -> (res: bool)
    ensures
        res == eq_ignore_ascii_case(after_last(shortcut@, '+'), key@),
{
    let chars = chars_of(shortcut.as_str());
    let n = chars.len();
    let tail = match rfind_char(&chars, '+') {
        Some(i) => sub_chars(&chars, i + 1, n),
        None => sub_chars(&chars, 0, n),
    };
    proof {
        assert(chars@.subrange(0, chars@.len() as int) =~= chars@);
        assert(chars@.skip(0) =~= chars@);
    }
    let tail_text = string_of(&tail);
    eq_ignore_ascii_case_str(tail_text.as_str(), key)
}

pub fn context_menu_shortcut_entry_ix(model: &ContextMenuModel, key: &str) -> (res: Option<usize>)
    ensures
        match res {
            Some(ix) => shortcut_entry_ix(model@, key@) == Some(ix as int),
            None => shortcut_entry_ix(model@, key@) is None,
        },
{
    let key_chars = chars_of(key);
    if key_chars.len() != 1 {
        return None;
    }
    let ghost p = |item: ContextMenuItemView| shortcut_hit(item, key@);
    let mut i: usize = 0;
    while i < model.items.len()
        invariant
            i <= model.items.len(),
            model@.len() == model.items.len(),
            key@.len() == 1,
            p == (|item: ContextMenuItemView| shortcut_hit(item, key@)),
            forall|j: int| 0 <= j < i ==> !p(#[trigger] model@[j]),
        decreases model.items.len() - i,
    {
        let hit = match &model.items[i] {
            ContextMenuItem::Entry { shortcut, disabled, .. } => {
                if *disabled {
                    false
                } else {
                    match shortcut {
                        Some(s) => shortcut_key_matches(s, key),
                        None => false,
                    }
                }
            },
            _ => false,
        };
        assert(hit == p(model@[i as int]));
        if hit {
            proof {
                assert(is_first_where(model@, p, i as int));
                lemma_first_where_found(model@, p, i as int);
            }
            return Some(i);
        }
        i += 1;
    }
    proof {
        lemma_first_where_none(model@, p);
    }
    None
}

/// The path as this platform writes it. Paths here use `/` already, so the
/// text is unchanged.
pub fn normalize_platform_path(path: String) -> (res: String)
    ensures
        res@ == path@,
{
    path
}

/// The text a "copy path" action puts on the clipboard.
pub fn path_text_for_copy(path: &str) -> (res: String)
    ensures
        res@ == path@,
{
    normalize_platform_path(path.to_owned())
}

/// `remote/branch` of the upstream that the active repository's checked-out
/// branch tracks, when the head and the branch list have loaded and the head
/// branch has an upstream.
pub open spec fn tracking_upstream_name(state: AppStateView) -> Option<Seq<char>> {
    match state.active_repo {
        None => None,
        Some(id) => match find_repo_view(state.repos, id) {
            None => None,
            Some(repo) => match (repo.head_branch, repo.branches) {
                (Some(head), Some(branches)) => match first_where(
                    branches,
                    |b: BranchView| b.name == head,
                ) {
                    Some(i) => match branches[i].upstream {
                        Some((remote, branch)) => Some(remote + "/"@ + branch),
                        None => None,
                    },
                    None => None,
                },
                _ => None,
            },
        },
    }
}

fn find_branch_named(branches: &Vec<Branch>, name: &String) -> (res: Option<usize>)
    ensures
        match res {
            Some(i) => first_where(
                branches@.map_values(|b: Branch| b@),
                |b: BranchView| b.name == name@,
            ) == Some(i as int) && i < branches@.len(),
            None => first_where(
                branches@.map_values(|b: Branch| b@),
                |b: BranchView| b.name == name@,
            ) is None,
        },
{
    let ghost views = branches@.map_values(|b: Branch| b@);
    let ghost p = |b: BranchView| b.name == name@;
    let mut i: usize = 0;
    while i < branches.len()
        invariant
            i <= branches.len(),
            views == branches@.map_values(|b: Branch| b@),
            p == (|b: BranchView| b.name == name@),
            forall|j: int| 0 <= j < i ==> !p(#[trigger] views[j]),
        decreases branches.len() - i,
    {
        if branches[i].name == *name {
            proof {
                assert(is_first_where(views, p, i as int));
                lemma_first_where_found(views, p, i as int);
            }
            return Some(i);
        }
        i += 1;
    }
    proof {
        lemma_first_where_none(views, p);
    }
    None
}

pub fn active_branch_tracking_upstream_name(host: &PopoverHost) -> (res: Option<String>)
    ensures
        opt_view(res) == tracking_upstream_name(host@.state),
{
    let repo_id = match host.active_repo_id() {
        Some(id) => id,
        None => return None,
    };
    let ix = match find_repo_index(&host.state.repos, repo_id) {
        Some(ix) => ix,
        None => return None,
    };
    let repo: &RepoState = &host.state.repos[ix];
    assert(host@.state.repos[ix as int] == repo@);
    let head = match &repo.head_branch {
        Some(h) => h,
        None => return None,
    };
    let branches = match &repo.branches {
        Some(b) => b,
        None => return None,
    };
    let bix = match find_branch_named(branches, head) {
        Some(bix) => bix,
        None => return None,
    };
    assert(branches@.map_values(|b: Branch| b@)[bix as int] == branches@[bix as int]@);
    match &branches[bix].upstream {
        Some(upstream) => {
            let with_sep = concat(upstream.remote.as_str(), "/");
            Some(concat(with_sep.as_str(), upstream.branch.as_str()))
        },
        None => None,
    }
}

/// A menu title, followed by the tracking branch's name when there is one.
pub fn action_menu_title(base: &str, tracking_branch_name: Option<&str>) -> (res: String)
    ensures
        res@ == match tracking_branch_name {
            Some(name) => base@ + " "@ + name@,
            None => base@,
        },
{
    match tracking_branch_name {
        Some(name) => {
            let with_sep = concat(base, " ");
            concat(with_sep.as_str(), name)
        },
        None => base.to_owned(),
    }
}

/// The label with ASCII letters and digits lowercased, and every run of other
/// characters that follows some output turned into one `_`.
pub open spec fn slug_collapse(s: Seq<char>) -> Seq<char>
    decreases s.len(),
{
    if s.len() == 0 {
        Seq::empty()
    } else {
        let prev = slug_collapse(s.drop_last());
        let c = s.last();
        if is_ascii_alnum(c) {
            prev.push(ascii_lower(c))
        } else if prev.len() > 0 && prev.last() != '_' {
            prev.push('_')
        } else {
            prev
        }
    }
}

/// The test selector of an entry: `context_menu_` and the slug of its label
/// without trailing `_`, or `context_menu_entry` when the slug is empty.
pub open spec fn debug_selector(label: Seq<char>) -> Seq<char> {
    let raw = slug_collapse(label);
    let slug = raw.take(keep_before_trailing(raw, '_') as int);
    if slug.len() == 0 {
        "context_menu_entry"@
    } else {
        "context_menu_"@ + slug
    }
}

pub fn context_menu_entry_debug_selector(label: &str) -> (res: String)
    ensures
        res@ == debug_selector(label@),
{
    let chars = chars_of(label);
    let mut slug: Vec<char> = Vec::new();
    let mut previous_was_separator = true;
    let mut i: usize = 0;
    while i < chars.len()
        invariant
            i <= chars.len(),
            chars@ == label@,
            slug@ == slug_collapse(chars@.take(i as int)),
            previous_was_separator == (slug@.len() == 0 || slug@.last() == '_'),
        decreases chars.len() - i,
    {
        assert(chars@.take(i + 1).drop_last() =~= chars@.take(i as int));
        assert(chars@.take(i + 1).last() == chars@[i as int]);
        let ch = chars[i];
        if is_ascii_alnum_char(ch) {
            let lower = to_ascii_lower_char(ch);
            assert(lower != '_');
            slug.push(lower);
            previous_was_separator = false;
        } else if !previous_was_separator {
            slug.push('_');
            previous_was_separator = true;
        }
        i += 1;
    }
    assert(chars@.take(chars@.len() as int) =~= chars@);
    let mut end = slug.len();
    assert(slug@.take(end as int) =~= slug@);
    while end > 0 && slug[end - 1] == '_'
        invariant
            end <= slug.len(),
            keep_before_trailing(slug@, '_') == keep_before_trailing(slug@.take(end as int), '_'),
        decreases end,
    {
        assert(slug@.take(end as int).drop_last() =~= slug@.take(end - 1));
        end -= 1;
    }
    let body = sub_chars(&slug, 0, end);
    if body.len() == 0 {
        "context_menu_entry".to_owned()
    } else {
        let body_text = string_of(&body);
        concat("context_menu_", body_text.as_str())
    }
}

/// `Ctrl+` and the key: the label of a shortcut on the secondary modifier.
pub open spec fn secondary_shortcut_label(key: Seq<char>) -> Seq<char> {
    "Ctrl+"@ + key
}

pub fn secondary_shortcut(key: &str) -> (res: String)
    ensures
        res@ == secondary_shortcut_label(key@),
{
    concat("Ctrl+", key)
}

/// A `..` component at position `i` of a `/`-separated path.
pub open spec fn parent_segment_at(path: Seq<char>, i: int) -> bool {
    &&& 0 <= i && i + 2 <= path.len()
    &&& path[i] == '.' && path[i + 1] == '.'
    &&& (i == 0 || path[i - 1] == '/')
    &&& (i + 2 == path.len() || path[i + 2] == '/')
}

/// The path is absolute or climbs out with a `..` component.
pub open spec fn escapes_workdir(path: Seq<char>) -> bool {
    ||| (path.len() > 0 && path[0] == '/')
    ||| exists|i: int| parent_segment_at(path, i)
}

/// `Path::join` of a relative path: a `/` goes between the two unless the
/// base is empty or already ends in `/`.
pub open spec fn join_path(base: Seq<char>, rel: Seq<char>) -> Seq<char> {
    if base.len() > 0 && base.last() != '/' {
        base + "/"@ + rel
    } else {
        base + rel
    }
}

/// Where `path` (relative to the repository) lies on disk, or why it cannot
/// be opened.
pub open spec fn resolve_workdir_path_spec(
    state: AppStateView,
    repo_id: RepoId,
    path: Seq<char>,
) -> Result<Seq<char>, Seq<char>> {
    if escapes_workdir(path) {
        Err("Refusing to open path outside repository"@)
    } else {
        match find_repo_view(state.repos, repo_id) {
            Some(repo) => Ok(join_path(repo.workdir, path)),
            None => Err("Repository is not available"@),
        }
    }
}

fn escapes_workdir_exec(path: &Vec<char>) -> (res: bool)
    ensures
        res == escapes_workdir(path@),
{
    let n = path.len();
    if n > 0 && path[0] == '/' {
        return true;
    }
    let mut i: usize = 0;
    while i <= n && n - i >= 2
        invariant
            i <= n,
            n == path@.len(),
            forall|j: int| 0 <= j < i ==> !#[trigger] parent_segment_at(path@, j),
        decreases n - i,
    {
        if path[i] == '.' && path[i + 1] == '.' && (i == 0 || path[i - 1] == '/') && (i + 2 == n
            || path[i + 2] == '/') {
            assert(parent_segment_at(path@, i as int));
            return true;
        }
        i += 1;
    }
    assert forall|j: int| !#[trigger] parent_segment_at(path@, j) by {
        if 0 <= j < i {
        }
    }
    false
}

impl PopoverHost {
    /// The working directory of repository `repo_id`.
    pub fn workdir_for_repo(&self, repo_id: RepoId) -> (res: Option<String>)
        ensures
            opt_view(res) == match find_repo_view(self@.state.repos, repo_id) {
                Some(repo) => Some(repo.workdir),
                None => None,
            },
    {
        match find_repo_index(&self.state.repos, repo_id) {
            Some(ix) => {
                assert(self@.state.repos[ix as int] == self.state.repos@[ix as int]@);
                Some(self.state.repos[ix].workdir.clone())
            },
            None => None,
        }
    }

    /// The on-disk location of `path` inside repository `repo_id`; refused for
    /// an absolute path or one with a `..` component.
    pub fn resolve_workdir_path(&self, repo_id: RepoId, path: &str) -> (res: Result<String, String>)
        ensures
            match res {
                Ok(p) => resolve_workdir_path_spec(self@.state, repo_id, path@) == Ok::<
                    Seq<char>,
                    Seq<char>,
                >(p@),
                Err(e) => resolve_workdir_path_spec(self@.state, repo_id, path@) == Err::<
                    Seq<char>,
                    Seq<char>,
                >(e@),
            },
    {
        let chars = chars_of(path);
        if escapes_workdir_exec(&chars) {
            return Err("Refusing to open path outside repository".to_owned());
        }
        let workdir = match self.workdir_for_repo(repo_id) {
            Some(w) => w,
            None => return Err("Repository is not available".to_owned()),
        };
        let wchars = chars_of(workdir.as_str());
        let n = wchars.len();
        let joined = if n > 0 && wchars[n - 1] != '/' {
            let with_sep = concat(workdir.as_str(), "/");
            concat(with_sep.as_str(), path)
        } else {
            concat(workdir.as_str(), path)
        };
        Ok(normalize_platform_path(joined))
    }
}

/// A path opens only inside its repository: the resolved location is the
/// working directory followed by the relative path itself, which is neither
/// absolute nor has a `..` component.
pub proof fn law_resolved_path_stays_in_workdir(
    state: AppStateView,
    repo_id: RepoId,
    path: Seq<char>,
)
    ensures
        resolve_workdir_path_spec(state, repo_id, path) matches Ok(p) ==> {
            &&& find_repo_view(state.repos, repo_id) matches Some(repo)
            &&& repo.workdir.len() + path.len() <= p.len()
            &&& p.take(repo.workdir.len() as int) == repo.workdir
            &&& p.skip(p.len() - path.len()) == path
            &&& !escapes_workdir(path)
        },
{
    if let Ok(p) = resolve_workdir_path_spec(state, repo_id, path) {
        let repo = find_repo_view(state.repos, repo_id)->0;
        let w = repo.workdir;
        if w.len() > 0 && w.last() != '/' {
            assert(p =~= w + "/"@ + path);
            assert(p.take(w.len() as int) =~= w);
            assert(p.skip(p.len() - path.len()) =~= path);
        } else {
            assert(p =~= w + path);
            assert(p.take(w.len() as int) =~= w);
            assert(p.skip(p.len() - path.len()) =~= path);
        }
    }
}

pub open spec fn rebase_entry(
    label: Seq<char>,
    ix: usize,
    action: InteractiveRebaseAction,
    disabled: bool,
) -> ContextMenuItemView {
    ContextMenuItemView::Entry {
        label,
        icon: None,
        shortcut: None,
        disabled,
        action: ContextMenuActionView::SetInteractiveRebaseAction { ix, action },
    }
}

/// The action menu of rebase entry `ix`: pick (locked while the entry is a
/// squash target), reword, drop (unless the entry cannot be dropped), and
/// squash when the entry can squash.
pub open spec fn rebase_action_menu(
    ix: usize,
    can_squash: bool,
    can_drop: bool,
    pick_locked: bool,
) -> Seq<ContextMenuItemView> {
    let base = seq![
        rebase_entry("pick"@, ix, InteractiveRebaseAction::Pick, pick_locked),
        rebase_entry("reword"@, ix, InteractiveRebaseAction::Reword, false),
        rebase_entry("drop"@, ix, InteractiveRebaseAction::Drop, !can_drop),
    ];
    if can_squash {
        base.push(rebase_entry("squash"@, ix, InteractiveRebaseAction::Squash, false))
    } else {
        base
    }
}

fn rebase_entry_item(
    label: &str,
    ix: usize,
    action: InteractiveRebaseAction,
    disabled: bool,
) -> (res: ContextMenuItem)
    ensures
        res@ == rebase_entry(label@, ix, action, disabled),
{
    ContextMenuItem::Entry {
        label: label.to_owned(),
        icon: None,
        shortcut: None,
        disabled,
        action: Box::new(ContextMenuAction::SetInteractiveRebaseAction { ix, action }),
    }
}

pub fn interactive_rebase_action_menu_model(
    ix: usize,
    can_squash: bool,
    can_drop: bool,
    pick_locked: bool,
) -> (res: ContextMenuModel)
    ensures
        res@ == rebase_action_menu(ix, can_squash, can_drop, pick_locked),
{
    let mut items = vec![
        rebase_entry_item("pick", ix, InteractiveRebaseAction::Pick, pick_locked),
        rebase_entry_item("reword", ix, InteractiveRebaseAction::Reword, false),
        rebase_entry_item("drop", ix, InteractiveRebaseAction::Drop, !can_drop),
    ];
    if can_squash {
        items.push(rebase_entry_item("squash", ix, InteractiveRebaseAction::Squash, !can_squash));
    }
    let res = ContextMenuModel::new(items);
    assert(res@ =~= rebase_action_menu(ix, can_squash, can_drop, pick_locked));
    res
}

pub open spec fn autosquash_entry(mode: AutosquashMode) -> ContextMenuItemView {
    ContextMenuItemView::Entry {
        label: autosquash_label(mode),
        icon: None,
        shortcut: None,
        disabled: false,
        action: ContextMenuActionView::SetInteractiveRebaseAutosquashMode { mode },
    }
}

/// The Auto Squash menu: a header and one entry per mode.
pub open spec fn autosquash_menu() -> Seq<ContextMenuItemView> {
    seq![
        ContextMenuItemView::Header("Auto Squash"@),
        autosquash_entry(AutosquashMode::ToTop),
        autosquash_entry(AutosquashMode::Neighbor),
        autosquash_entry(AutosquashMode::ToBottom),
    ]
}

fn autosquash_entry_item(mode: AutosquashMode) -> (res: ContextMenuItem)
    ensures
        res@ == autosquash_entry(mode),
{
    ContextMenuItem::Entry {
        label: mode.label().to_owned(),
        icon: None,
        shortcut: None,
        disabled: false,
        action: Box::new(ContextMenuAction::SetInteractiveRebaseAutosquashMode { mode }),
    }
}

pub fn interactive_rebase_autosquash_menu_model() -> (res: ContextMenuModel)
    ensures
        res@ == autosquash_menu(),
{
    let items = vec![
        ContextMenuItem::Header("Auto Squash".to_owned()),
        autosquash_entry_item(AutosquashMode::ToTop),
        autosquash_entry_item(AutosquashMode::Neighbor),
        autosquash_entry_item(AutosquashMode::ToBottom),
    ];
    let res = ContextMenuModel::new(items);
    assert(res@ =~= autosquash_menu());
    res
}

/// What the menus learn from outside the application state: the patch of
/// the hunk a hunk menu is for (when it can be built), whether `pick` is
/// locked for the rebase entry an action menu is for, and what the commit
/// menu learns from the history view.
pub struct MenuInputs {
    pub hunk_patch: Option<String>,
    pub pick_locked: bool,
    pub commit_facts: commit::CommitMenuFacts,
}

/// The menu a popover kind shows, for the kinds whose menus are built from
/// the state alone (the author filter menu is stated apart).
pub open spec fn menu_for(
    state: AppStateView,
    kind: PopoverKindView,
    hunk_patch: Option<Seq<char>>,
    pick_locked: bool,
    facts: commit::CommitMenuFactsView,
) -> Option<Seq<ContextMenuItemView>> {
    match kind {
        PopoverKindView::CommitMenu { repo_id, commit_id } => Some(
            commit::commit_menu(state, repo_id, commit_id, facts),
        ),
        PopoverKindView::FileBrowserFileMenu { repo_id, path } => Some(
            file_browser_file::file_browser_menu(state, repo_id, path),
        ),
        PopoverKindView::DiffHunkMenu { repo_id, src_ix } => Some(
            diff_hunk::hunk_menu(state, repo_id, src_ix, hunk_patch),
        ),
        PopoverKindView::InteractiveRebaseActionMenu { ix, can_squash, can_drop } => Some(
            rebase_action_menu(ix, can_squash, can_drop, pick_locked),
        ),
        PopoverKindView::InteractiveRebaseAutosquashMenu => Some(autosquash_menu()),
        _ => None,
    }
}

impl PopoverHost {
    /// The context menu a popover kind shows; no menu for the other kinds.
    pub fn context_menu_model(&self, kind: &PopoverKind, inputs: MenuInputs) -> (res: Option<
        ContextMenuModel,
    >)
        ensures
            match kind@ {
                PopoverKindView::HistoryAuthorFilter { repo_id } => res matches Some(m)
                    && history_author_filter::host_author_menu(self@.state, repo_id, m@),
                _ => match res {
                    Some(m) => menu_for(
                        self@.state,
                        kind@,
                        opt_view(inputs.hunk_patch),
                        inputs.pick_locked,
                        inputs.commit_facts@,
                    ) == Some(m@),
                    None => menu_for(
                        self@.state,
                        kind@,
                        opt_view(inputs.hunk_patch),
                        inputs.pick_locked,
                        inputs.commit_facts@,
                    ) is None,
                },
            },
    {
        match kind {
            PopoverKind::CommitMenu { repo_id, commit_id } => Some(
                commit::model(self, *repo_id, commit_id.as_str(), &inputs.commit_facts),
            ),
            PopoverKind::FileBrowserFileMenu { repo_id, path } => Some(
                file_browser_file::model(self, *repo_id, path.as_str()),
            ),
            PopoverKind::DiffHunkMenu { repo_id, src_ix } => Some(
                diff_hunk::model(self, *repo_id, *src_ix, inputs.hunk_patch),
            ),
            PopoverKind::HistoryAuthorFilter { repo_id } => Some(
                history_author_filter::model(self, *repo_id),
            ),
            PopoverKind::InteractiveRebaseActionMenu { ix, can_squash, can_drop } => Some(
                interactive_rebase_action_menu_model(*ix, *can_squash, *can_drop, inputs.pick_locked),
            ),
            PopoverKind::InteractiveRebaseAutosquashMenu => Some(
                interactive_rebase_autosquash_menu_model(),
            ),
            _ => None,
        }
    }
}

} // verus!
