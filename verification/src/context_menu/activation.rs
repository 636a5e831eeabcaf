//! What activating a context-menu entry does: the store message to dispatch,
//! the popover to open, or the work the UI performs, and whether the menu
//! closes afterwards.
use vstd::prelude::*;
use crate::context_menu::{
    opt_view, resolve_workdir_path_spec, AutosquashMode, ContextMenuAction, ContextMenuActionView,
    InteractiveRebaseAction,
};
use crate::message::{Msg, MsgView};
use crate::model::{find_repo_view, AppStateView, DiffWhitespaceMode, RepoId};
use crate::popover::{BranchSection, PopoverHost, PopoverKind, PopoverKindView};
use crate::search::{short_id, short_id_string};
use crate::text::{concat, is_blank, is_blank_str};

verus! {

/// The kind of a toast notification.
#[derive(Clone, Copy, Debug, PartialEq, Eq, Structural)]
pub enum ToastKind {
    Error,
    Warning,
}

/// What happens to the menu once its entry has been handled.
#[derive(Clone, Copy, Debug, PartialEq, Eq, Structural)]
pub enum AfterActivation {
    /// Close the menu and give focus back to where it was.
    CloseAndRestoreFocus,
    /// Close the menu.
    Close,
    /// Leave it: another popover takes its place.
    KeepOpen,
    /// Keep the menu open and redraw it, so a toggled setting shows.
    StayOpen,
    /// Keep the menu open, redraw it and give focus to the diff panel.
    StayOpenFocusDiff,
}

/// What a terminal's context menu asks of the terminal.
#[derive(Clone, Copy, Debug, PartialEq, Eq, Structural)]
pub enum TerminalCommand {
    Copy,
    Paste,
    SelectAll,
    Clear,
    OpenExternal,
}

/// A view or commit setting a menu entry switches.
#[derive(Clone, Copy, Debug, PartialEq, Eq, Structural)]
pub enum MenuToggle {
    DiffRevealWhitespaceChars,
    DiffWordWrap,
    DiffShowLineNumbers,
    CommitAmend,
    CommitPushAfter,
    MergetoolAutoAdvance,
    MergetoolOutputScrollSync,
    MergetoolShowLineNumbers,
    MergetoolThreeWayView,
    /// Folds or unfolds the unchanged context in the merge tool.
    MergetoolCollapseUnchanged,
}

/// The work an activated entry asks for.
#[derive(Clone, Debug, PartialEq, Eq)]
pub enum ActivationStep {
    /// Dispatch a message to the store.
    Dispatch(Msg),
    /// Dispatch a message, then open a popover.
    DispatchThenOpen { msg: Msg, popover: PopoverKind },
    OpenPopover(PopoverKind),
    Toast { kind: ToastKind, message: String },
    /// Open a file with the system's default application.
    OpenPath(String),
    /// Show a path in the file manager, or `fallback` when the path is gone.
    RevealPath { path: String, fallback: Option<String> },
    CopyText(String),
    /// Copy text selected in a diff (the clipboard notes it came from a diff).
    CopyDiffSelection(String),
    /// Run a terminal command in the repository's terminal.
    Terminal { repo_id: RepoId, command: TerminalCommand },
    /// Ask for a folder and export the commit's patch there as `file_name`.
    PromptExportPatch { repo_id: RepoId, commit_id: String, file_name: String },
    UseCommitMessage(String),
    SetRebaseAction { ix: usize, action: InteractiveRebaseAction },
    ApplyAutosquash(AutosquashMode),
    /// Set a setting (and persist it); `None` flips it.
    Toggle { setting: MenuToggle, enabled: Option<bool> },
    /// Set (and persist) how the diff treats whitespace.
    SetWhitespaceMode(DiffWhitespaceMode),
    /// Pin the branch in the sidebar, or unpin it when it is pinned.
    ToggleBranchPin { repo_id: RepoId, section: BranchSection, name: String },
    /// Drop any pending centred force-delete prompt, then dispatch the message.
    ClearForceDeleteThenDispatch(Msg),
    Nothing,
}

pub enum ActivationStepView {
    Dispatch(MsgView),
    DispatchThenOpen { msg: MsgView, popover: PopoverKindView },
    OpenPopover(PopoverKindView),
    Toast { kind: ToastKind, message: Seq<char> },
    OpenPath(Seq<char>),
    RevealPath { path: Seq<char>, fallback: Option<Seq<char>> },
    CopyText(Seq<char>),
    CopyDiffSelection(Seq<char>),
    Terminal { repo_id: RepoId, command: TerminalCommand },
    PromptExportPatch { repo_id: RepoId, commit_id: Seq<char>, file_name: Seq<char> },
    UseCommitMessage(Seq<char>),
    SetRebaseAction { ix: usize, action: InteractiveRebaseAction },
    ApplyAutosquash(AutosquashMode),
    Toggle { setting: MenuToggle, enabled: Option<bool> },
    SetWhitespaceMode(DiffWhitespaceMode),
    ToggleBranchPin { repo_id: RepoId, section: BranchSection, name: Seq<char> },
    ClearForceDeleteThenDispatch(MsgView),
    Nothing,
}

impl View for ActivationStep {
    type V = ActivationStepView;

    open spec fn view(&self) -> ActivationStepView {
        match self {
            ActivationStep::Dispatch(m) => ActivationStepView::Dispatch(m@),
            ActivationStep::DispatchThenOpen { msg, popover } => ActivationStepView::DispatchThenOpen {
                msg: msg@,
                popover: popover@,
            },
            ActivationStep::OpenPopover(k) => ActivationStepView::OpenPopover(k@),
            ActivationStep::Toast { kind, message } => ActivationStepView::Toast {
                kind: *kind,
                message: message@,
            },
            ActivationStep::OpenPath(p) => ActivationStepView::OpenPath(p@),
            ActivationStep::RevealPath { path, fallback } => ActivationStepView::RevealPath {
                path: path@,
                fallback: opt_view(*fallback),
            },
            ActivationStep::CopyText(t) => ActivationStepView::CopyText(t@),
            ActivationStep::CopyDiffSelection(t) => ActivationStepView::CopyDiffSelection(t@),
            ActivationStep::Terminal { repo_id, command } => ActivationStepView::Terminal {
                repo_id: *repo_id,
                command: *command,
            },
            ActivationStep::PromptExportPatch { repo_id, commit_id, file_name } =>
                ActivationStepView::PromptExportPatch {
                    repo_id: *repo_id,
                    commit_id: commit_id@,
                    file_name: file_name@,
                },
            ActivationStep::UseCommitMessage(m) => ActivationStepView::UseCommitMessage(m@),
            ActivationStep::SetRebaseAction { ix, action } => ActivationStepView::SetRebaseAction {
                ix: *ix,
                action: *action,
            },
            ActivationStep::ApplyAutosquash(mode) => ActivationStepView::ApplyAutosquash(*mode),
            ActivationStep::Toggle { setting, enabled } => ActivationStepView::Toggle {
                setting: *setting,
                enabled: *enabled,
            },
            ActivationStep::SetWhitespaceMode(m) => ActivationStepView::SetWhitespaceMode(*m),
            ActivationStep::ToggleBranchPin { repo_id, section, name } => ActivationStepView::ToggleBranchPin {
                repo_id: *repo_id,
                section: *section,
                name: name@,
            },
            ActivationStep::ClearForceDeleteThenDispatch(m) => ActivationStepView::ClearForceDeleteThenDispatch(m@),
            ActivationStep::Nothing => ActivationStepView::Nothing,
        }
    }
}

/// The outcome of activating an entry.
#[derive(Clone, Debug, PartialEq, Eq)]
pub struct Activation {
    pub step: ActivationStep,
    pub after: AfterActivation,
}

pub open spec fn dispatch(msg: MsgView) -> (ActivationStepView, AfterActivation) {
    (ActivationStepView::Dispatch(msg), AfterActivation::CloseAndRestoreFocus)
}

/// Opening a file of the repository: the path on disk, or a toast when the
/// path may not be opened (the menu then closes without restoring focus).
pub open spec fn open_file_step(state: AppStateView, repo_id: RepoId, path: Seq<char>, reveal: bool) -> (
    ActivationStepView,
    AfterActivation,
) {
    match resolve_workdir_path_spec(state, repo_id, path) {
        Err(e) => (ActivationStepView::Toast { kind: ToastKind::Error, message: e }, AfterActivation::Close),
        Ok(full) => if reveal {
            (
                ActivationStepView::RevealPath {
                    path: full,
                    fallback: match find_repo_view(state.repos, repo_id) {
                        Some(r) => Some(r.workdir),
                        None => None,
                    },
                },
                AfterActivation::CloseAndRestoreFocus,
            )
        } else {
            (ActivationStepView::OpenPath(full), AfterActivation::CloseAndRestoreFocus)
        },
    }
}

/// A hunk action: dispatch the hunk's patch, or a toast when no patch could
/// be built for the hunk.
pub open spec fn hunk_step(msg: Option<MsgView>) -> (ActivationStepView, AfterActivation) {
    match msg {
        Some(m) => dispatch(m),
        None => (
            ActivationStepView::Toast {
                kind: ToastKind::Error,
                message: "Couldn't build patch for this hunk"@,
            },
            AfterActivation::CloseAndRestoreFocus,
        ),
    }
}

/// What activating `action` does. `hunk_patch` is the unified patch of the
/// hunk a hunk action is for, when one can be built; `git_available` says
/// whether git can run (squashing needs it).
pub open spec fn activation_for(
    state: AppStateView,
    action: ContextMenuActionView,
    hunk_patch: Option<Seq<char>>,
    git_available: bool,
) -> (ActivationStepView, AfterActivation) {
    match action {
        ContextMenuActionView::FetchAll { repo_id } => dispatch(MsgView::FetchAll { repo_id }),
        ContextMenuActionView::UseCommitMessage { message } => (
            ActivationStepView::UseCommitMessage(message),
            AfterActivation::CloseAndRestoreFocus,
        ),
        ContextMenuActionView::SetInteractiveRebaseAction { ix, action } => (
            ActivationStepView::SetRebaseAction { ix, action },
            AfterActivation::CloseAndRestoreFocus,
        ),
        ContextMenuActionView::SetInteractiveRebaseAutosquashMode { mode } => (
            ActivationStepView::ApplyAutosquash(mode),
            AfterActivation::CloseAndRestoreFocus,
        ),
        ContextMenuActionView::StageHunk { repo_id, src_ix } => hunk_step(
            match hunk_patch {
                Some(patch) => Some(MsgView::StageHunk { repo_id, patch }),
                None => None,
            },
        ),
        ContextMenuActionView::UnstageHunk { repo_id, src_ix } => hunk_step(
            match hunk_patch {
                Some(patch) => Some(MsgView::UnstageHunk { repo_id, patch }),
                None => None,
            },
        ),
        ContextMenuActionView::ApplyWorktreePatch { repo_id, patch, reverse } => if is_blank(patch) {
            (
                ActivationStepView::Toast { kind: ToastKind::Error, message: "Patch is empty"@ },
                AfterActivation::CloseAndRestoreFocus,
            )
        } else {
            dispatch(MsgView::ApplyWorktreePatch { repo_id, patch, reverse })
        },
        ContextMenuActionView::OpenPopover { kind } => (
            ActivationStepView::OpenPopover(kind),
            AfterActivation::KeepOpen,
        ),
        ContextMenuActionView::SetHistoryAuthorFilter { repo_id, author } => dispatch(
            MsgView::SetHistoryAuthorFilter { repo_id, author },
        ),
        ContextMenuActionView::SelectDiff { repo_id, target } => dispatch(
            MsgView::SelectDiff { repo_id, target },
        ),
        ContextMenuActionView::OpenFileContent { repo_id, source, path } => dispatch(
            MsgView::OpenFileContent { repo_id, source, path },
        ),
        ContextMenuActionView::OpenFile { repo_id, path } => open_file_step(state, repo_id, path, false),
        ContextMenuActionView::OpenFileLocation { repo_id, path } => open_file_step(
            state,
            repo_id,
            path,
            true,
        ),
        ContextMenuActionView::CopyText { text } => (
            ActivationStepView::CopyText(text),
            AfterActivation::CloseAndRestoreFocus,
        ),
        ContextMenuActionView::SquashSelectedCommits { repo_id } => if git_available {
            (
                ActivationStepView::DispatchThenOpen {
                    msg: MsgView::PrepareSquash { repo_id },
                    popover: PopoverKindView::SquashPrompt { repo_id },
                },
                AfterActivation::KeepOpen,
            )
        } else {
            (ActivationStepView::Nothing, AfterActivation::Close)
        },
        ContextMenuActionView::OpenInteractiveCherryPickSetup { repo_id, entries, source_colors } =>
            dispatch(MsgView::OpenInteractiveCherryPickSetup { repo_id, entries, source_colors }),
        ContextMenuActionView::BrowseRepositoryAtCommit { repo_id, commit_id } => dispatch(
            MsgView::BrowseRepositoryAtCommit { repo_id, commit_id },
        ),
        ContextMenuActionView::MarkForComparison { repo_id, commit_id, label } => dispatch(
            MsgView::MarkForComparison { repo_id, commit_id, label },
        ),
        ContextMenuActionView::CompareWithWorkingTree { repo_id, commit_id, label } => dispatch(
            MsgView::CompareWithWorkingTree { repo_id, from: commit_id, from_label: label },
        ),
        ContextMenuActionView::CompareWithMarked { repo_id, commit_id, label } => dispatch(
            MsgView::CompareWithMarked { repo_id, commit_id, label },
        ),
        ContextMenuActionView::ClearComparisonMark { repo_id } => dispatch(
            MsgView::ClearComparisonMark { repo_id },
        ),
        ContextMenuActionView::ExportPatch { repo_id, commit_id } => (
            ActivationStepView::PromptExportPatch {
                repo_id,
                commit_id,
                file_name: "commit-"@ + short_id(commit_id) + ".patch"@,
            },
            AfterActivation::Close,
        ),
        ContextMenuActionView::CheckoutCommit { repo_id, commit_id } => dispatch(
            MsgView::CheckoutCommit { repo_id, commit_id },
        ),
        ContextMenuActionView::CherryPickCommit { repo_id, commit_id } => (
            ActivationStepView::OpenPopover(
                PopoverKindView::CherryPickCommitConfirm { repo_id, commit_id },
            ),
            AfterActivation::KeepOpen,
        ),
        ContextMenuActionView::RevertCommit { repo_id, commit_id } => dispatch(
            MsgView::RevertCommit { repo_id, commit_id },
        ),
        ContextMenuActionView::LoadInteractiveRebaseSetup { repo_id, base } => dispatch(
            MsgView::LoadInteractiveRebaseSetup { repo_id, base },
        ),
        ContextMenuActionView::ResetBrowseToLive { repo_id } => dispatch(MsgView::ResetBrowseToLive { repo_id }),
        ContextMenuActionView::SelectConflictDiff { repo_id, path } => dispatch(MsgView::SelectConflictDiff { repo_id, path }),
        ContextMenuActionView::ActivateRepo { repo_id } => dispatch(MsgView::SetActiveRepo { repo_id }),
        ContextMenuActionView::CloseRepo { repo_id } => dispatch(MsgView::CloseRepo { repo_id }),
        ContextMenuActionView::CloseRepos { repo_ids, activate_after } => dispatch(MsgView::CloseRepos { repo_ids, activate_after }),
        ContextMenuActionView::CheckoutBranch { repo_id, name } => dispatch(MsgView::CheckoutBranch { repo_id, name }),
        ContextMenuActionView::LaunchMergetool { repo_id, path } => dispatch(MsgView::LaunchMergetool { repo_id, path }),
        ContextMenuActionView::PruneMergedBranches { repo_id } => dispatch(MsgView::PruneMergedBranches { repo_id }),
        ContextMenuActionView::PruneLocalTags { repo_id } => dispatch(MsgView::PruneLocalTags { repo_id }),
        ContextMenuActionView::UpdateSubmodules { repo_id } => dispatch(MsgView::UpdateSubmodules { repo_id }),
        ContextMenuActionView::LoadSubmodule { repo_id, path } => dispatch(MsgView::LoadSubmodule { repo_id, path }),
        ContextMenuActionView::LoadWorktrees { repo_id } => dispatch(MsgView::LoadWorktrees { repo_id }),
        ContextMenuActionView::PullBranch { repo_id, remote, branch } => dispatch(MsgView::PullBranch { repo_id, remote, branch }),
        ContextMenuActionView::MergeRef { repo_id, reference } => dispatch(MsgView::MergeRef { repo_id, reference }),
        ContextMenuActionView::SquashRef { repo_id, reference } => dispatch(MsgView::SquashRef { repo_id, reference }),
        ContextMenuActionView::ApplyStash { repo_id, index } => dispatch(MsgView::ApplyStash { repo_id, index }),
        ContextMenuActionView::PopStash { repo_id, index } => dispatch(MsgView::PopStash { repo_id, index }),
        ContextMenuActionView::Push { repo_id } => dispatch(MsgView::Push { repo_id }),
        ContextMenuActionView::SetUpstreamBranch { repo_id, branch, upstream } => dispatch(MsgView::SetUpstreamBranch { repo_id, branch, upstream }),
        ContextMenuActionView::UnsetUpstreamBranch { repo_id, branch } => dispatch(MsgView::UnsetUpstreamBranch { repo_id, branch }),
        ContextMenuActionView::DeleteTag { repo_id, name } => dispatch(MsgView::DeleteTag { repo_id, name }),
        ContextMenuActionView::PushTag { repo_id, remote, name } => dispatch(MsgView::PushTag { repo_id, remote, name }),
        ContextMenuActionView::DeleteRemoteTag { repo_id, remote, name } => dispatch(MsgView::DeleteRemoteTag { repo_id, remote, name }),
        ContextMenuActionView::OpenRepo { path } => dispatch(MsgView::OpenRepo(path)),
        ContextMenuActionView::ApplyIndexPatch { repo_id, patch, reverse } => if is_blank(patch) {
            (
                ActivationStepView::Toast { kind: ToastKind::Error, message: "Patch is empty"@ },
                AfterActivation::CloseAndRestoreFocus,
            )
        } else if reverse {
            dispatch(MsgView::UnstageHunk { repo_id, patch })
        } else {
            dispatch(MsgView::StageHunk { repo_id, patch })
        },
        ContextMenuActionView::DropStashConfirm { repo_id, index, message } => (
            ActivationStepView::OpenPopover(PopoverKindView::StashDropConfirm { repo_id, index, message }),
            AfterActivation::KeepOpen,
        ),
        ContextMenuActionView::DiscardWorktreeChangesSelectionOrPath { repo_id, area, path } => (
            ActivationStepView::OpenPopover(
                PopoverKindView::DiscardChangesConfirm { repo_id, area, path: Some(path) },
            ),
            AfterActivation::KeepOpen,
        ),
        ContextMenuActionView::SetDiffRevealWhitespaceChars { enabled } => (
            ActivationStepView::Toggle { setting: MenuToggle::DiffRevealWhitespaceChars, enabled: Some(enabled) },
            AfterActivation::StayOpenFocusDiff,
        ),
        ContextMenuActionView::SetDiffWordWrap { enabled } => (
            ActivationStepView::Toggle { setting: MenuToggle::DiffWordWrap, enabled: Some(enabled) },
            AfterActivation::StayOpenFocusDiff,
        ),
        ContextMenuActionView::SetDiffShowLineNumbers { enabled } => (
            ActivationStepView::Toggle { setting: MenuToggle::DiffShowLineNumbers, enabled: Some(enabled) },
            AfterActivation::StayOpenFocusDiff,
        ),
        ContextMenuActionView::SetCommitAmendEnabled { enabled } => (
            ActivationStepView::Toggle { setting: MenuToggle::CommitAmend, enabled: Some(enabled) },
            AfterActivation::StayOpen,
        ),
        ContextMenuActionView::SetCommitPushAfterEnabled { enabled } => (
            ActivationStepView::Toggle { setting: MenuToggle::CommitPushAfter, enabled: Some(enabled) },
            AfterActivation::StayOpen,
        ),
        ContextMenuActionView::SetMergetoolAutoAdvance { enabled } => (
            ActivationStepView::Toggle { setting: MenuToggle::MergetoolAutoAdvance, enabled: Some(enabled) },
            AfterActivation::StayOpen,
        ),
        ContextMenuActionView::SetMergetoolOutputScrollSync { enabled } => (
            ActivationStepView::Toggle { setting: MenuToggle::MergetoolOutputScrollSync, enabled: Some(enabled) },
            AfterActivation::StayOpen,
        ),
        ContextMenuActionView::SetMergetoolShowLineNumbers { enabled } => (
            ActivationStepView::Toggle { setting: MenuToggle::MergetoolShowLineNumbers, enabled: Some(enabled) },
            AfterActivation::StayOpen,
        ),
        ContextMenuActionView::SetMergetoolThreeWayView { enabled } => (
            ActivationStepView::Toggle { setting: MenuToggle::MergetoolThreeWayView, enabled: Some(enabled) },
            AfterActivation::StayOpen,
        ),
        ContextMenuActionView::DeleteBranch { repo_id, name } => (
            ActivationStepView::ClearForceDeleteThenDispatch(MsgView::DeleteBranch { repo_id, name }),
            AfterActivation::CloseAndRestoreFocus,
        ),
        ContextMenuActionView::ToggleBranchPin { repo_id, section, name } => (
            ActivationStepView::ToggleBranchPin { repo_id, section, name },
            AfterActivation::CloseAndRestoreFocus,
        ),
        ContextMenuActionView::SetHistoryScope { repo_id, scope } => dispatch(
            MsgView::SetHistoryScope { repo_id, scope },
        ),
        ContextMenuActionView::Pull { repo_id, mode } => dispatch(MsgView::Pull { repo_id, mode }),
        ContextMenuActionView::SetDiffWhitespaceMode { mode } => (
            ActivationStepView::SetWhitespaceMode(mode),
            AfterActivation::StayOpenFocusDiff,
        ),
        ContextMenuActionView::ToggleMergetoolCollapseUnchanged => (
            ActivationStepView::Toggle { setting: MenuToggle::MergetoolCollapseUnchanged, enabled: None },
            AfterActivation::StayOpen,
        ),
        ContextMenuActionView::OpenRepositoryLocation { path } => (
            ActivationStepView::RevealPath { path, fallback: None },
            AfterActivation::CloseAndRestoreFocus,
        ),
        ContextMenuActionView::TerminalCopy { repo_id } => (
            ActivationStepView::Terminal { repo_id, command: TerminalCommand::Copy },
            AfterActivation::CloseAndRestoreFocus,
        ),
        ContextMenuActionView::TerminalPaste { repo_id } => (
            ActivationStepView::Terminal { repo_id, command: TerminalCommand::Paste },
            AfterActivation::CloseAndRestoreFocus,
        ),
        ContextMenuActionView::TerminalSelectAll { repo_id } => (
            ActivationStepView::Terminal { repo_id, command: TerminalCommand::SelectAll },
            AfterActivation::CloseAndRestoreFocus,
        ),
        ContextMenuActionView::TerminalClear { repo_id } => (
            ActivationStepView::Terminal { repo_id, command: TerminalCommand::Clear },
            AfterActivation::CloseAndRestoreFocus,
        ),
        ContextMenuActionView::TerminalOpenExternal { repo_id } => (
            ActivationStepView::Terminal { repo_id, command: TerminalCommand::OpenExternal },
            AfterActivation::CloseAndRestoreFocus,
        ),
        ContextMenuActionView::CopyDiffSelection { text } => (
            ActivationStepView::CopyDiffSelection(text),
            AfterActivation::CloseAndRestoreFocus,
        ),
    }
}

fn dispatched(msg: Msg) -> (res: Activation)
    ensures
        (res.step@, res.after) == dispatch(msg@),
{
    Activation { step: ActivationStep::Dispatch(msg), after: AfterActivation::CloseAndRestoreFocus }
}

impl PopoverHost {
    fn open_file_activation(&self, repo_id: RepoId, path: &str, reveal: bool) -> (res: Activation)
        ensures
            (res.step@, res.after) == open_file_step(self@.state, repo_id, path@, reveal),
    {
        match self.resolve_workdir_path(repo_id, path) {
            Err(e) => Activation {
                step: ActivationStep::Toast { kind: ToastKind::Error, message: e },
                after: AfterActivation::Close,
            },
            Ok(full) => {
                if reveal {
                    Activation {
                        step: ActivationStep::RevealPath {
                            path: full,
                            fallback: self.workdir_for_repo(repo_id),
                        },
                        after: AfterActivation::CloseAndRestoreFocus,
                    }
                } else {
                    Activation {
                        step: ActivationStep::OpenPath(full),
                        after: AfterActivation::CloseAndRestoreFocus,
                    }
                }
            },
        }
    }

    /// What activating `action` does; `hunk_patch` is the unified patch of
    /// the hunk a hunk action is for, when one can be built, and
    /// `git_available` whether git can run.
    pub fn context_menu_activate_action(
        &self,
        action: ContextMenuAction,
        hunk_patch: Option<String>,
        git_available: bool,
    ) -> (res: Activation)
        ensures
            (res.step@, res.after) == activation_for(
                self@.state,
                action@,
                opt_view(hunk_patch),
                git_available,
            ),
    {
        match action {
            ContextMenuAction::FetchAll { repo_id } => dispatched(Msg::FetchAll { repo_id }),
            ContextMenuAction::UseCommitMessage { message } => Activation {
                step: ActivationStep::UseCommitMessage(message),
                after: AfterActivation::CloseAndRestoreFocus,
            },
            ContextMenuAction::SetInteractiveRebaseAction { ix, action } => Activation {
                step: ActivationStep::SetRebaseAction { ix, action },
                after: AfterActivation::CloseAndRestoreFocus,
            },
            ContextMenuAction::SetInteractiveRebaseAutosquashMode { mode } => Activation {
                step: ActivationStep::ApplyAutosquash(mode),
                after: AfterActivation::CloseAndRestoreFocus,
            },
            ContextMenuAction::StageHunk { repo_id, .. } => match hunk_patch {
                Some(patch) => dispatched(Msg::StageHunk { repo_id, patch }),
                None => Activation {
                    step: ActivationStep::Toast {
                        kind: ToastKind::Error,
                        message: "Couldn't build patch for this hunk".to_owned(),
                    },
                    after: AfterActivation::CloseAndRestoreFocus,
                },
            },
            ContextMenuAction::UnstageHunk { repo_id, .. } => match hunk_patch {
                Some(patch) => dispatched(Msg::UnstageHunk { repo_id, patch }),
                None => Activation {
                    step: ActivationStep::Toast {
                        kind: ToastKind::Error,
                        message: "Couldn't build patch for this hunk".to_owned(),
                    },
                    after: AfterActivation::CloseAndRestoreFocus,
                },
            },
            ContextMenuAction::ApplyWorktreePatch { repo_id, patch, reverse } => {
                if is_blank_str(patch.as_str()) {
                    Activation {
                        step: ActivationStep::Toast {
                            kind: ToastKind::Error,
                            message: "Patch is empty".to_owned(),
                        },
                        after: AfterActivation::CloseAndRestoreFocus,
                    }
                } else {
                    dispatched(Msg::ApplyWorktreePatch { repo_id, patch, reverse })
                }
            },
            ContextMenuAction::OpenPopover { kind } => Activation {
                step: ActivationStep::OpenPopover(kind),
                after: AfterActivation::KeepOpen,
            },
            ContextMenuAction::SetHistoryAuthorFilter { repo_id, author } => dispatched(
                Msg::SetHistoryAuthorFilter { repo_id, author },
            ),
            ContextMenuAction::SelectDiff { repo_id, target } => dispatched(
                Msg::SelectDiff { repo_id, target },
            ),
            ContextMenuAction::OpenFileContent { repo_id, source, path } => dispatched(
                Msg::OpenFileContent { repo_id, source, path },
            ),
            ContextMenuAction::OpenFile { repo_id, path } => self.open_file_activation(
                repo_id,
                path.as_str(),
                false,
            ),
            ContextMenuAction::OpenFileLocation { repo_id, path } => self.open_file_activation(
                repo_id,
                path.as_str(),
                true,
            ),
            ContextMenuAction::CopyText { text } => Activation {
                step: ActivationStep::CopyText(text),
                after: AfterActivation::CloseAndRestoreFocus,
            },
            ContextMenuAction::SquashSelectedCommits { repo_id } => {
                if git_available {
                    Activation {
                        step: ActivationStep::DispatchThenOpen {
                            msg: Msg::PrepareSquash { repo_id },
                            popover: PopoverKind::SquashPrompt { repo_id },
                        },
                        after: AfterActivation::KeepOpen,
                    }
                } else {
                    Activation { step: ActivationStep::Nothing, after: AfterActivation::Close }
                }
            },
            ContextMenuAction::OpenInteractiveCherryPickSetup { repo_id, entries, source_colors } =>
                dispatched(Msg::OpenInteractiveCherryPickSetup { repo_id, entries, source_colors }),
            ContextMenuAction::BrowseRepositoryAtCommit { repo_id, commit_id } => dispatched(
                Msg::BrowseRepositoryAtCommit { repo_id, commit_id },
            ),
            ContextMenuAction::MarkForComparison { repo_id, commit_id, label } => dispatched(
                Msg::MarkForComparison { repo_id, commit_id, label },
            ),
            ContextMenuAction::CompareWithWorkingTree { repo_id, commit_id, label } => dispatched(
                Msg::CompareWithWorkingTree { repo_id, from: commit_id, from_label: label },
            ),
            ContextMenuAction::CompareWithMarked { repo_id, commit_id, label } => dispatched(
                Msg::CompareWithMarked { repo_id, commit_id, label },
            ),
            ContextMenuAction::ClearComparisonMark { repo_id } => dispatched(
                Msg::ClearComparisonMark { repo_id },
            ),
            ContextMenuAction::ExportPatch { repo_id, commit_id } => {
                let short = short_id_string(commit_id.as_str());
                let named = concat("commit-", short.as_str());
                let file_name = concat(named.as_str(), ".patch");
                Activation {
                    step: ActivationStep::PromptExportPatch { repo_id, commit_id, file_name },
                    after: AfterActivation::Close,
                }
            },
            ContextMenuAction::CheckoutCommit { repo_id, commit_id } => dispatched(
                Msg::CheckoutCommit { repo_id, commit_id },
            ),
            ContextMenuAction::CherryPickCommit { repo_id, commit_id } => Activation {
                step: ActivationStep::OpenPopover(
                    PopoverKind::CherryPickCommitConfirm { repo_id, commit_id },
                ),
                after: AfterActivation::KeepOpen,
            },
            ContextMenuAction::RevertCommit { repo_id, commit_id } => dispatched(
                Msg::RevertCommit { repo_id, commit_id },
            ),
            ContextMenuAction::LoadInteractiveRebaseSetup { repo_id, base } => dispatched(
                Msg::LoadInteractiveRebaseSetup { repo_id, base },
            ),
            ContextMenuAction::ResetBrowseToLive { repo_id } => dispatched(Msg::ResetBrowseToLive { repo_id }),
            ContextMenuAction::SelectConflictDiff { repo_id, path } => dispatched(Msg::SelectConflictDiff { repo_id, path }),
            ContextMenuAction::ActivateRepo { repo_id } => dispatched(Msg::SetActiveRepo { repo_id }),
            ContextMenuAction::CloseRepo { repo_id } => dispatched(Msg::CloseRepo { repo_id }),
            ContextMenuAction::CloseRepos { repo_ids, activate_after } => dispatched(Msg::CloseRepos { repo_ids, activate_after }),
            ContextMenuAction::CheckoutBranch { repo_id, name } => dispatched(Msg::CheckoutBranch { repo_id, name }),
            ContextMenuAction::LaunchMergetool { repo_id, path } => dispatched(Msg::LaunchMergetool { repo_id, path }),
            ContextMenuAction::PruneMergedBranches { repo_id } => dispatched(Msg::PruneMergedBranches { repo_id }),
            ContextMenuAction::PruneLocalTags { repo_id } => dispatched(Msg::PruneLocalTags { repo_id }),
            ContextMenuAction::UpdateSubmodules { repo_id } => dispatched(Msg::UpdateSubmodules { repo_id }),
            ContextMenuAction::LoadSubmodule { repo_id, path } => dispatched(Msg::LoadSubmodule { repo_id, path }),
            ContextMenuAction::LoadWorktrees { repo_id } => dispatched(Msg::LoadWorktrees { repo_id }),
            ContextMenuAction::PullBranch { repo_id, remote, branch } => dispatched(Msg::PullBranch { repo_id, remote, branch }),
            ContextMenuAction::MergeRef { repo_id, reference } => dispatched(Msg::MergeRef { repo_id, reference }),
            ContextMenuAction::SquashRef { repo_id, reference } => dispatched(Msg::SquashRef { repo_id, reference }),
            ContextMenuAction::ApplyStash { repo_id, index } => dispatched(Msg::ApplyStash { repo_id, index }),
            ContextMenuAction::PopStash { repo_id, index } => dispatched(Msg::PopStash { repo_id, index }),
            ContextMenuAction::Push { repo_id } => dispatched(Msg::Push { repo_id }),
            ContextMenuAction::SetUpstreamBranch { repo_id, branch, upstream } => dispatched(Msg::SetUpstreamBranch { repo_id, branch, upstream }),
            ContextMenuAction::UnsetUpstreamBranch { repo_id, branch } => dispatched(Msg::UnsetUpstreamBranch { repo_id, branch }),
            ContextMenuAction::DeleteTag { repo_id, name } => dispatched(Msg::DeleteTag { repo_id, name }),
            ContextMenuAction::PushTag { repo_id, remote, name } => dispatched(Msg::PushTag { repo_id, remote, name }),
            ContextMenuAction::DeleteRemoteTag { repo_id, remote, name } => dispatched(Msg::DeleteRemoteTag { repo_id, remote, name }),
            ContextMenuAction::OpenRepo { path } => dispatched(Msg::OpenRepo(path)),
            ContextMenuAction::ApplyIndexPatch { repo_id, patch, reverse } => {
                if is_blank_str(patch.as_str()) {
                    Activation {
                        step: ActivationStep::Toast {
                            kind: ToastKind::Error,
                            message: "Patch is empty".to_owned(),
                        },
                        after: AfterActivation::CloseAndRestoreFocus,
                    }
                } else if reverse {
                    dispatched(Msg::UnstageHunk { repo_id, patch })
                } else {
                    dispatched(Msg::StageHunk { repo_id, patch })
                }
            },
            ContextMenuAction::DropStashConfirm { repo_id, index, message } => Activation {
                step: ActivationStep::OpenPopover(PopoverKind::StashDropConfirm { repo_id, index, message }),
                after: AfterActivation::KeepOpen,
            },
            ContextMenuAction::DiscardWorktreeChangesSelectionOrPath { repo_id, area, path } => Activation {
                step: ActivationStep::OpenPopover(
                    PopoverKind::DiscardChangesConfirm { repo_id, area, path: Some(path) },
                ),
                after: AfterActivation::KeepOpen,
            },
            ContextMenuAction::SetDiffRevealWhitespaceChars { enabled } => Activation {
                step: ActivationStep::Toggle { setting: MenuToggle::DiffRevealWhitespaceChars, enabled: Some(enabled) },
                after: AfterActivation::StayOpenFocusDiff,
            },
            ContextMenuAction::SetDiffWordWrap { enabled } => Activation {
                step: ActivationStep::Toggle { setting: MenuToggle::DiffWordWrap, enabled: Some(enabled) },
                after: AfterActivation::StayOpenFocusDiff,
            },
            ContextMenuAction::SetDiffShowLineNumbers { enabled } => Activation {
                step: ActivationStep::Toggle { setting: MenuToggle::DiffShowLineNumbers, enabled: Some(enabled) },
                after: AfterActivation::StayOpenFocusDiff,
            },
            ContextMenuAction::SetCommitAmendEnabled { enabled } => Activation {
                step: ActivationStep::Toggle { setting: MenuToggle::CommitAmend, enabled: Some(enabled) },
                after: AfterActivation::StayOpen,
            },
            ContextMenuAction::SetCommitPushAfterEnabled { enabled } => Activation {
                step: ActivationStep::Toggle { setting: MenuToggle::CommitPushAfter, enabled: Some(enabled) },
                after: AfterActivation::StayOpen,
            },
            ContextMenuAction::SetMergetoolAutoAdvance { enabled } => Activation {
                step: ActivationStep::Toggle { setting: MenuToggle::MergetoolAutoAdvance, enabled: Some(enabled) },
                after: AfterActivation::StayOpen,
            },
            ContextMenuAction::SetMergetoolOutputScrollSync { enabled } => Activation {
                step: ActivationStep::Toggle { setting: MenuToggle::MergetoolOutputScrollSync, enabled: Some(enabled) },
                after: AfterActivation::StayOpen,
            },
            ContextMenuAction::SetMergetoolShowLineNumbers { enabled } => Activation {
                step: ActivationStep::Toggle { setting: MenuToggle::MergetoolShowLineNumbers, enabled: Some(enabled) },
                after: AfterActivation::StayOpen,
            },
            ContextMenuAction::SetMergetoolThreeWayView { enabled } => Activation {
                step: ActivationStep::Toggle { setting: MenuToggle::MergetoolThreeWayView, enabled: Some(enabled) },
                after: AfterActivation::StayOpen,
            },
            ContextMenuAction::DeleteBranch { repo_id, name } => Activation {
                step: ActivationStep::ClearForceDeleteThenDispatch(Msg::DeleteBranch { repo_id, name }),
                after: AfterActivation::CloseAndRestoreFocus,
            },
            ContextMenuAction::ToggleBranchPin { repo_id, section, name } => Activation {
                step: ActivationStep::ToggleBranchPin { repo_id, section, name },
                after: AfterActivation::CloseAndRestoreFocus,
            },
            ContextMenuAction::SetHistoryScope { repo_id, scope } => dispatched(
                Msg::SetHistoryScope { repo_id, scope },
            ),
            ContextMenuAction::Pull { repo_id, mode } => dispatched(Msg::Pull { repo_id, mode }),
            ContextMenuAction::SetDiffWhitespaceMode { mode } => Activation {
                step: ActivationStep::SetWhitespaceMode(mode),
                after: AfterActivation::StayOpenFocusDiff,
            },
            ContextMenuAction::ToggleMergetoolCollapseUnchanged => Activation {
                step: ActivationStep::Toggle { setting: MenuToggle::MergetoolCollapseUnchanged, enabled: None },
                after: AfterActivation::StayOpen,
            },
            ContextMenuAction::OpenRepositoryLocation { path } => Activation {
                step: ActivationStep::RevealPath { path, fallback: None },
                after: AfterActivation::CloseAndRestoreFocus,
            },
            ContextMenuAction::TerminalCopy { repo_id } => Activation {
                step: ActivationStep::Terminal { repo_id, command: TerminalCommand::Copy },
                after: AfterActivation::CloseAndRestoreFocus,
            },
            ContextMenuAction::TerminalPaste { repo_id } => Activation {
                step: ActivationStep::Terminal { repo_id, command: TerminalCommand::Paste },
                after: AfterActivation::CloseAndRestoreFocus,
            },
            ContextMenuAction::TerminalSelectAll { repo_id } => Activation {
                step: ActivationStep::Terminal { repo_id, command: TerminalCommand::SelectAll },
                after: AfterActivation::CloseAndRestoreFocus,
            },
            ContextMenuAction::TerminalClear { repo_id } => Activation {
                step: ActivationStep::Terminal { repo_id, command: TerminalCommand::Clear },
                after: AfterActivation::CloseAndRestoreFocus,
            },
            ContextMenuAction::TerminalOpenExternal { repo_id } => Activation {
                step: ActivationStep::Terminal { repo_id, command: TerminalCommand::OpenExternal },
                after: AfterActivation::CloseAndRestoreFocus,
            },
            ContextMenuAction::CopyDiffSelection { text } => Activation {
                step: ActivationStep::CopyDiffSelection(text),
                after: AfterActivation::CloseAndRestoreFocus,
            },
        }
    }
}

/// The toast after Auto Squash: a warning when it found nothing to fold.
pub open spec fn autosquash_feedback_spec(applied: bool) -> Option<(ToastKind, Seq<char>)> {
    if applied {
        None
    } else {
        Some(
            (
                ToastKind::Warning,
                "No automatic squashable commits found. Auto Squash searches for commits with identical messages and amend-commits them."@,
            ),
        )
    }
}

pub fn autosquash_feedback(applied: bool) -> (res: Option<(ToastKind, String)>)
    ensures
        match res {
            Some((kind, message)) => autosquash_feedback_spec(applied) == Some((kind, message@)),
            None => autosquash_feedback_spec(applied) is None,
        },
{
    if applied {
        None
    } else {
        Some(
            (
                ToastKind::Warning,
                "No automatic squashable commits found. Auto Squash searches for commits with identical messages and amend-commits them.".to_owned(),
            ),
        )
    }
}

} // verus!
