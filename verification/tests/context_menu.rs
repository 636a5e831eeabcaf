use gitcomet::context_menu::diff_hunk::{diff_hunk_primary_action, diff_hunk_primary_metadata, model};
use gitcomet::context_menu::{
    action_menu_title, active_branch_tracking_upstream_name, context_menu_activate_entry_ix,
    context_menu_entry_action_at, context_menu_entry_debug_selector, context_menu_entry_tooltip,
    context_menu_shortcut_entry_ix, interactive_rebase_action_menu_model,
    interactive_rebase_autosquash_menu_model, path_text_for_copy, secondary_shortcut,
    AutosquashMode, ContextMenuAction, ContextMenuItem, ContextMenuModel, InteractiveRebaseAction,
};
use gitcomet::model::{AppState, Branch, DiffArea, DiffTarget, RepoId, RepoState, Upstream, VirtualBranch};
use gitcomet::popover::{PopoverHost, PopoverKind};

fn host_with(repo: RepoState) -> PopoverHost {
    let mut state = AppState::new();
    state.active_repo = Some(repo.id);
    state.repos.push(repo);
    PopoverHost { state, popover: None }
}

#[test]
fn context_menu_shortcut_entry_ix_matches_first_enabled_single_character_entry() {
    let model = ContextMenuModel::new(vec![
        ContextMenuItem::Header("Test".into()),
        ContextMenuItem::Entry {
            label: "Disabled A".into(),
            icon: None,
            shortcut: Some("A".into()),
            disabled: true,
            action: Box::new(ContextMenuAction::FetchAll { repo_id: RepoId(1) }),
        },
        ContextMenuItem::Entry {
            label: "Enter".into(),
            icon: None,
            shortcut: Some("Enter".into()),
            disabled: false,
            action: Box::new(ContextMenuAction::FetchAll { repo_id: RepoId(2) }),
        },
        ContextMenuItem::Entry {
            label: "Ctrl Copy".into(),
            icon: None,
            shortcut: Some(secondary_shortcut("C")),
            disabled: false,
            action: Box::new(ContextMenuAction::FetchAll { repo_id: RepoId(3) }),
        },
        ContextMenuItem::Entry {
            label: "Enabled A".into(),
            icon: None,
            shortcut: Some("A".into()),
            disabled: false,
            action: Box::new(ContextMenuAction::FetchAll { repo_id: RepoId(4) }),
        },
    ]);

    assert_eq!(context_menu_shortcut_entry_ix(&model, "a"), Some(4));
    assert_eq!(context_menu_shortcut_entry_ix(&model, "A"), Some(4));
    assert_eq!(context_menu_shortcut_entry_ix(&model, "c"), Some(3));
    assert_eq!(context_menu_shortcut_entry_ix(&model, "e"), None);
    assert_eq!(context_menu_shortcut_entry_ix(&model, "enter"), None);
}

#[test]
fn context_menu_activate_entry_ix_prefers_selected_entry_and_falls_back_to_first_selectable() {
    let model = ContextMenuModel::new(vec![
        ContextMenuItem::Header("Test".into()),
        ContextMenuItem::Entry {
            label: "Disabled".into(),
            icon: None,
            shortcut: Some("D".into()),
            disabled: true,
            action: Box::new(ContextMenuAction::FetchAll { repo_id: RepoId(1) }),
        },
        ContextMenuItem::Entry {
            label: "First".into(),
            icon: None,
            shortcut: Some("Enter".into()),
            disabled: false,
            action: Box::new(ContextMenuAction::FetchAll { repo_id: RepoId(2) }),
        },
        ContextMenuItem::Entry {
            label: "Second".into(),
            icon: None,
            shortcut: Some("S".into()),
            disabled: false,
            action: Box::new(ContextMenuAction::FetchAll { repo_id: RepoId(3) }),
        },
    ]);

    assert_eq!(context_menu_activate_entry_ix(&model, None), Some(2));
    assert_eq!(context_menu_activate_entry_ix(&model, Some(3)), Some(3));
    assert_eq!(context_menu_activate_entry_ix(&model, Some(1)), Some(2));
    assert_eq!(context_menu_activate_entry_ix(&model, Some(99)), Some(2));
}

#[test]
fn use_commit_message_action_exposes_full_message_tooltip() {
    let tooltip = context_menu_entry_tooltip(&ContextMenuAction::UseCommitMessage {
        message: "\n\nsubject\n\nbody".to_string(),
    });

    assert_eq!(
        tooltip.as_ref().map(|text| text.as_str()),
        Some("subject\n\nbody")
    );
}

#[test]
fn non_commit_message_actions_do_not_expose_entry_tooltips() {
    assert!(
        context_menu_entry_tooltip(&ContextMenuAction::FetchAll { repo_id: RepoId(1) })
            .is_none()
    );
}

#[test]
fn blank_commit_message_has_no_tooltip() {
    let tooltip = context_menu_entry_tooltip(&ContextMenuAction::UseCommitMessage {
        message: " \n\t ".to_string(),
    });
    assert!(tooltip.is_none());
}

#[test]
fn unstaged_target_uses_stage_shortcut_and_action() {
    let target = DiffTarget::WorkingTree {
        path: "src/lib.rs".to_string(),
        area: DiffArea::Unstaged,
    };

    let (disabled, label, icon, shortcut) = diff_hunk_primary_metadata(Some(&target));
    assert!(!disabled);
    assert_eq!(label, "Stage hunk");
    assert_eq!(icon, "icons/plus.svg");
    assert_eq!(shortcut, Some(secondary_shortcut("S")));
    assert!(matches!(
        diff_hunk_primary_action(RepoId(9), 4, Some(&target)),
        ContextMenuAction::StageHunk {
            repo_id,
            src_ix: 4
        } if repo_id == RepoId(9)
    ));
}

#[test]
fn staged_target_uses_unstage_shortcut_and_action() {
    let target = DiffTarget::WorkingTree {
        path: "src/lib.rs".to_string(),
        area: DiffArea::Staged,
    };

    let (disabled, label, icon, shortcut) = diff_hunk_primary_metadata(Some(&target));
    assert!(!disabled);
    assert_eq!(label, "Unstage hunk");
    assert_eq!(icon, "icons/minus.svg");
    assert_eq!(shortcut, Some(secondary_shortcut("U")));
    assert!(matches!(
        diff_hunk_primary_action(RepoId(10), 5, Some(&target)),
        ContextMenuAction::UnstageHunk {
            repo_id,
            src_ix: 5
        } if repo_id == RepoId(10)
    ));
}

#[test]
fn commit_diff_disables_the_primary_hunk_entry() {
    let target = DiffTarget::Commit { commit_id: "abc".to_string(), path: None };
    let (disabled, label, _, shortcut) = diff_hunk_primary_metadata(Some(&target));
    assert!(disabled);
    assert_eq!(label, "Stage/Unstage hunk");
    assert_eq!(shortcut, None);
    assert!(diff_hunk_primary_metadata(None).0);
}

#[test]
fn hunk_menu_offers_discard_and_move_for_unstaged_hunks() {
    let mut repo = RepoState::new_opening(RepoId(3), "/w".to_string());
    repo.diff_target = Some(DiffTarget::WorkingTree {
        path: "src/a.rs".to_string(),
        area: DiffArea::Unstaged,
    });
    repo.virtual_branches.push(VirtualBranch {
        id: 1,
        name: "vb".to_string(),
        paths: vec![],
        applied: true,
        stored_patch: None,
        pending: false,
    });
    let host = host_with(repo);
    let menu = model(&host, RepoId(3), 7, Some("@@ patch".to_string()));
    assert_eq!(menu.items.len(), 5);
    assert_eq!(menu.items[0], ContextMenuItem::Header("Hunk".to_string()));
    assert_eq!(menu.items[1], ContextMenuItem::Separator);
    match &menu.items[3] {
        ContextMenuItem::Entry { label, disabled, action, shortcut, .. } => {
            assert_eq!(label, "Discard hunk");
            assert!(!disabled);
            assert_eq!(shortcut.as_deref(), Some("Ctrl+D"));
            assert_eq!(
                **action,
                ContextMenuAction::ApplyWorktreePatch {
                    repo_id: RepoId(3),
                    patch: "@@ patch".to_string(),
                    reverse: true
                }
            );
        }
        other => panic!("unexpected {other:?}"),
    }
    match &menu.items[4] {
        ContextMenuItem::Entry { disabled, action, .. } => {
            assert!(!disabled);
            assert_eq!(
                **action,
                ContextMenuAction::OpenPopover {
                    kind: PopoverKind::VirtualBranchMovePicker {
                        repo_id: RepoId(3),
                        patch: "@@ patch".to_string(),
                        path: "src/a.rs".to_string(),
                    }
                }
            );
        }
        other => panic!("unexpected {other:?}"),
    }
    let without_patch = model(&host, RepoId(3), 7, None);
    assert!(matches!(&without_patch.items[3], ContextMenuItem::Entry { disabled: true, .. }));
    assert!(matches!(&without_patch.items[4], ContextMenuItem::Entry { disabled: true, .. }));
}

#[test]
fn debug_selectors_slug_the_label() {
    assert_eq!(
        context_menu_entry_debug_selector("Stage hunk"),
        "context_menu_stage_hunk"
    );
    assert_eq!(
        context_menu_entry_debug_selector("  Move hunk to virtual branch…  "),
        "context_menu_move_hunk_to_virtual_branch"
    );
    assert_eq!(context_menu_entry_debug_selector("A--B"), "context_menu_a_b");
    assert_eq!(context_menu_entry_debug_selector("…"), "context_menu_entry");
    assert_eq!(context_menu_entry_debug_selector(""), "context_menu_entry");
}

#[test]
fn entry_action_at_returns_only_entry_actions() {
    let model = interactive_rebase_action_menu_model(2, false, true, false);
    assert_eq!(
        context_menu_entry_action_at(&model, 1),
        Some(ContextMenuAction::SetInteractiveRebaseAction {
            ix: 2,
            action: InteractiveRebaseAction::Reword
        })
    );
    assert_eq!(context_menu_entry_action_at(&model, 3), None);
    let autosquash = interactive_rebase_autosquash_menu_model();
    assert_eq!(context_menu_entry_action_at(&autosquash, 0), None);
}

#[test]
fn rebase_menus_lock_and_offer_the_right_entries() {
    let model = interactive_rebase_action_menu_model(0, true, false, true);
    assert_eq!(model.items.len(), 4);
    assert!(matches!(&model.items[0], ContextMenuItem::Entry { label, disabled: true, .. } if label == "pick"));
    assert!(matches!(&model.items[2], ContextMenuItem::Entry { label, disabled: true, .. } if label == "drop"));
    assert!(matches!(&model.items[3], ContextMenuItem::Entry { label, disabled: false, .. } if label == "squash"));
    let autosquash = interactive_rebase_autosquash_menu_model();
    assert_eq!(autosquash.items.len(), 4);
    assert!(matches!(
        &autosquash.items[2],
        ContextMenuItem::Entry { action, .. }
            if **action == ContextMenuAction::SetInteractiveRebaseAutosquashMode { mode: AutosquashMode::Neighbor }
    ));
}

#[test]
fn tracking_upstream_names_remote_and_branch() {
    let mut repo = RepoState::new_opening(RepoId(1), "/w".to_string());
    repo.head_branch = Some("main".to_string());
    repo.branches = Some(vec![
        Branch { name: "dev".to_string(), target: "c0".to_string(), upstream: None },
        Branch {
            name: "main".to_string(),
            target: "c1".to_string(),
            upstream: Some(Upstream { remote: "origin".to_string(), branch: "main".to_string() }),
        },
    ]);
    let host = host_with(repo);
    assert_eq!(
        active_branch_tracking_upstream_name(&host).as_deref(),
        Some("origin/main")
    );
    assert_eq!(action_menu_title("Pull", Some("origin/main")), "Pull origin/main");
    assert_eq!(action_menu_title("Pull", None), "Pull");
    let empty = PopoverHost { state: AppState::new(), popover: None };
    assert_eq!(active_branch_tracking_upstream_name(&empty), None);
}

#[test]
fn workdir_paths_refuse_escapes() {
    let host = host_with(RepoState::new_opening(RepoId(1), "/repo".to_string()));
    assert_eq!(
        host.resolve_workdir_path(RepoId(1), "src/lib.rs"),
        Ok("/repo/src/lib.rs".to_string())
    );
    assert_eq!(
        host.resolve_workdir_path(RepoId(1), "../etc/passwd"),
        Err("Refusing to open path outside repository".to_string())
    );
    assert_eq!(
        host.resolve_workdir_path(RepoId(1), "/etc/passwd"),
        Err("Refusing to open path outside repository".to_string())
    );
    assert_eq!(
        host.resolve_workdir_path(RepoId(1), "a/..b/c"),
        Ok("/repo/a/..b/c".to_string())
    );
    assert_eq!(
        host.resolve_workdir_path(RepoId(2), "src/lib.rs"),
        Err("Repository is not available".to_string())
    );
    assert_eq!(host.workdir_for_repo(RepoId(1)).as_deref(), Some("/repo"));
    let slash = host_with(RepoState::new_opening(RepoId(1), "/repo/".to_string()));
    assert_eq!(
        slash.resolve_workdir_path(RepoId(1), "x"),
        Ok("/repo/x".to_string())
    );
    assert_eq!(path_text_for_copy("a/b c"), "a/b c");
}
