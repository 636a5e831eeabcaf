//! The context menu of a diff hunk.
use vstd::prelude::*;
use crate::context_menu::{
    opt_view, secondary_shortcut, secondary_shortcut_label, ContextMenuAction,
    ContextMenuActionView, ContextMenuItem, ContextMenuItemView, ContextMenuModel,
};
use crate::model::{find_repo_index, find_repo_view, AppStateView, DiffArea, DiffTarget, DiffTargetView, RepoId};
use crate::popover::{PopoverHost, PopoverKind, PopoverKindView};

verus! {

pub open spec fn target_view(target: Option<&DiffTarget>) -> Option<DiffTargetView> {
    match target {
        Some(t) => Some(t@),
        None => None,
    }
}

/// Disabled flag, label, icon and shortcut of the stage/unstage entry: staging
/// for an unstaged worktree diff, unstaging for a staged one, and a disabled
/// entry for any other diff.
pub open spec fn primary_metadata(target: Option<DiffTargetView>) -> (
    bool,
    Seq<char>,
    Seq<char>,
    Option<Seq<char>>,
) {
    match target {
        Some(DiffTargetView::WorkingTree { area: DiffArea::Unstaged, .. }) => (
            false,
            "Stage hunk"@,
            "icons/plus.svg"@,
            Some(secondary_shortcut_label("S"@)),
        ),
        Some(DiffTargetView::WorkingTree { area: DiffArea::Staged, .. }) => (
            false,
            "Unstage hunk"@,
            "icons/minus.svg"@,
            Some(secondary_shortcut_label("U"@)),
        ),
        _ => (true, "Stage/Unstage hunk"@, "icons/plus.svg"@, None),
    }
}

pub fn diff_hunk_primary_metadata(diff_target: Option<&DiffTarget>) -> (res: (
    bool,
    &'static str,
    &'static str,
    Option<String>,
))
    ensures
        (res.0, res.1@, res.2@, opt_view(res.3)) == primary_metadata(target_view(diff_target)),
{
    match diff_target {
        Some(DiffTarget::WorkingTree { area, .. }) => match area {
            DiffArea::Unstaged => (
                false,
                "Stage hunk",
                "icons/plus.svg",
                Some(secondary_shortcut("S")),
            ),
            DiffArea::Staged => (
                false,
                "Unstage hunk",
                "icons/minus.svg",
                Some(secondary_shortcut("U")),
            ),
        },
        _ => (true, "Stage/Unstage hunk", "icons/plus.svg", None),
    }
}

/// Unstage the hunk in a staged worktree diff, stage it otherwise.
pub open spec fn primary_action(
    repo_id: RepoId,
    src_ix: usize,
    target: Option<DiffTargetView>,
) -> ContextMenuActionView {
    match target {
        Some(DiffTargetView::WorkingTree { area: DiffArea::Staged, .. }) =>
            ContextMenuActionView::UnstageHunk { repo_id, src_ix },
        _ => ContextMenuActionView::StageHunk { repo_id, src_ix },
    }
}

pub fn diff_hunk_primary_action(repo_id: RepoId, src_ix: usize, diff_target: Option<&DiffTarget>) -> (res:
    ContextMenuAction)
    ensures
        res@ == primary_action(repo_id, src_ix, target_view(diff_target)),
{
    match diff_target {
        Some(DiffTarget::WorkingTree { area: DiffArea::Staged, .. }) =>
            ContextMenuAction::UnstageHunk { repo_id, src_ix },
        _ => ContextMenuAction::StageHunk { repo_id, src_ix },
    }
}

pub open spec fn or_empty(s: Option<Seq<char>>) -> Seq<char> {
    match s {
        Some(t) => t,
        None => Seq::empty(),
    }
}

/// The hunk menu of hunk `src_ix` in repository `repo_id`, given the hunk's
/// unified patch when one could be built: stage/unstage, discard (unstaged
/// worktree hunks with a patch), and move to a virtual branch (the same, and
/// the repository has virtual branches).
pub open spec fn hunk_menu(
    state: AppStateView,
    repo_id: RepoId,
    src_ix: usize,
    patch: Option<Seq<char>>,
) -> Seq<ContextMenuItemView> {
    let repo = find_repo_view(state.repos, repo_id);
    let target = match repo {
        Some(r) => r.diff_target,
        None => None,
    };
    let (disabled, label, icon, shortcut) = primary_metadata(target);
    let is_unstaged = target matches Some(
        DiffTargetView::WorkingTree { area: DiffArea::Unstaged, .. },
    );
    let has_branches = match repo {
        Some(r) => r.virtual_branches.len() > 0,
        None => false,
    };
    let move_path = match target {
        Some(DiffTargetView::WorkingTree { path, .. }) => Some(path),
        _ => None,
    };
    seq![
        ContextMenuItemView::Header("Hunk"@),
        ContextMenuItemView::Separator,
        ContextMenuItemView::Entry {
            label,
            icon: Some(icon),
            shortcut,
            disabled,
            action: primary_action(repo_id, src_ix, target),
        },
        ContextMenuItemView::Entry {
            label: "Discard hunk"@,
            icon: Some("icons/refresh.svg"@),
            shortcut: Some(secondary_shortcut_label("D"@)),
            disabled: !is_unstaged || patch is None,
            action: ContextMenuActionView::ApplyWorktreePatch {
                repo_id,
                patch: or_empty(patch),
                reverse: true,
            },
        },
        ContextMenuItemView::Entry {
            label: "Move hunk to virtual branch…"@,
            icon: Some("icons/git_branch.svg"@),
            shortcut: None,
            disabled: !is_unstaged || patch is None || move_path is None || !has_branches,
            action: ContextMenuActionView::OpenPopover {
                kind: PopoverKindView::VirtualBranchMovePicker {
                    repo_id,
                    patch: or_empty(patch),
                    path: or_empty(move_path),
                },
            },
        },
    ]
}

fn string_or_empty(s: &Option<String>) -> (res: String)
    ensures
        res@ == or_empty(opt_view(*s)),
{
    match s {
        Some(t) => t.clone(),
        None => String::new(),
    }
}

/// The context menu of hunk `src_ix`; `hunk_patch` is the hunk's unified
/// patch when one can be built from the loaded diff.
pub fn model(this: &PopoverHost, repo_id: RepoId, src_ix: usize, hunk_patch: Option<String>) -> (res:
    ContextMenuModel)
    ensures
        res@ == hunk_menu(this@.state, repo_id, src_ix, opt_view(hunk_patch)),
{
    let repo_ix = find_repo_index(&this.state.repos, repo_id);
    let diff_target: Option<&DiffTarget> = match repo_ix {
        Some(ix) => {
            assert(this@.state.repos[ix as int] == this.state.repos@[ix as int]@);
            match &this.state.repos[ix].diff_target {
                Some(t) => Some(t),
                None => None,
            }
        },
        None => None,
    };
    let has_branches = match repo_ix {
        Some(ix) => this.state.repos[ix].virtual_branches.len() > 0,
        None => false,
    };
    let (disabled, label, icon, shortcut) = diff_hunk_primary_metadata(diff_target);
    let is_unstaged = match diff_target {
        Some(DiffTarget::WorkingTree { area: DiffArea::Unstaged, .. }) => true,
        _ => false,
    };
    let move_path: Option<String> = match diff_target {
        Some(DiffTarget::WorkingTree { path, .. }) => Some(path.clone()),
        _ => None,
    };
    let has_patch = hunk_patch.is_some();
    let patch = string_or_empty(&hunk_patch);
    let move_patch = string_or_empty(&hunk_patch);
    let has_move_path = move_path.is_some();
    let path = string_or_empty(&move_path);
    let items = vec![
        ContextMenuItem::Header("Hunk".to_owned()),
        ContextMenuItem::Separator,
        ContextMenuItem::Entry {
            label: label.to_owned(),
            icon: Some(icon.to_owned()),
            shortcut,
            disabled,
            action: Box::new(diff_hunk_primary_action(repo_id, src_ix, diff_target)),
        },
        ContextMenuItem::Entry {
            label: "Discard hunk".to_owned(),
            icon: Some("icons/refresh.svg".to_owned()),
            shortcut: Some(secondary_shortcut("D")),
            disabled: !is_unstaged || !has_patch,
            action: Box::new(ContextMenuAction::ApplyWorktreePatch { repo_id, patch, reverse: true }),
        },
        ContextMenuItem::Entry {
            label: "Move hunk to virtual branch…".to_owned(),
            icon: Some("icons/git_branch.svg".to_owned()),
            shortcut: None,
            disabled: !is_unstaged || !has_patch || !has_move_path || !has_branches,
            action: Box::new(
                ContextMenuAction::OpenPopover {
                    kind: PopoverKind::VirtualBranchMovePicker { repo_id, patch: move_patch, path },
                },
            ),
        },
    ];
    let res = ContextMenuModel::new(items);
    assert(res@ =~= hunk_menu(this@.state, repo_id, src_ix, opt_view(hunk_patch)));
    res
}

} // verus!
