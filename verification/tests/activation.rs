use gitcomet::context_menu::activation::{
    autosquash_feedback, Activation, ActivationStep, AfterActivation, MenuToggle, TerminalCommand,
    ToastKind,
};
use gitcomet::context_menu::ContextMenuAction;
use gitcomet::message::Msg;
use gitcomet::model::{AppState, DiffArea, RepoId, RepoState};
use gitcomet::popover::{PopoverHost, PopoverKind};

fn host() -> PopoverHost {
    let mut state = AppState::new();
    state.repos.push(RepoState::new_opening(RepoId(1), "/repo".to_string()));
    PopoverHost { state, popover: None }
}

#[test]
fn hunk_actions_dispatch_the_hunk_patch_or_report_a_missing_one() {
    let h = host();
    let stage = ContextMenuAction::StageHunk { repo_id: RepoId(1), src_ix: 3 };
    assert_eq!(
        h.context_menu_activate_action(stage.clone(), Some("@@ p".to_string()), true),
        Activation {
            step: ActivationStep::Dispatch(Msg::StageHunk {
                repo_id: RepoId(1),
                patch: "@@ p".to_string()
            }),
            after: AfterActivation::CloseAndRestoreFocus,
        }
    );
    assert_eq!(
        h.context_menu_activate_action(stage, None, true).step,
        ActivationStep::Toast {
            kind: ToastKind::Error,
            message: "Couldn't build patch for this hunk".to_string()
        }
    );
    let blank = ContextMenuAction::ApplyWorktreePatch {
        repo_id: RepoId(1),
        patch: " \n".to_string(),
        reverse: true,
    };
    assert_eq!(
        h.context_menu_activate_action(blank, None, true).step,
        ActivationStep::Toast { kind: ToastKind::Error, message: "Patch is empty".to_string() }
    );
}

#[test]
fn file_actions_resolve_inside_the_repository() {
    let h = host();
    let open = h.context_menu_activate_action(
        ContextMenuAction::OpenFile { repo_id: RepoId(1), path: "src/a.rs".to_string() },
        None,
        true,
    );
    assert_eq!(open.step, ActivationStep::OpenPath("/repo/src/a.rs".to_string()));
    let escape = h.context_menu_activate_action(
        ContextMenuAction::OpenFileLocation { repo_id: RepoId(1), path: "../x".to_string() },
        None,
        true,
    );
    assert_eq!(
        escape,
        Activation {
            step: ActivationStep::Toast {
                kind: ToastKind::Error,
                message: "Refusing to open path outside repository".to_string()
            },
            after: AfterActivation::Close,
        }
    );
    let reveal = h.context_menu_activate_action(
        ContextMenuAction::OpenFileLocation { repo_id: RepoId(1), path: "a".to_string() },
        None,
        true,
    );
    assert_eq!(
        reveal.step,
        ActivationStep::RevealPath {
            path: "/repo/a".to_string(),
            fallback: Some("/repo".to_string())
        }
    );
}

#[test]
fn popovers_keep_the_menu_and_squash_needs_git() {
    let h = host();
    let kind = PopoverKind::StashPrompt;
    assert_eq!(
        h.context_menu_activate_action(ContextMenuAction::OpenPopover { kind: kind.clone() }, None, true),
        Activation { step: ActivationStep::OpenPopover(kind), after: AfterActivation::KeepOpen }
    );
    let squash = ContextMenuAction::SquashSelectedCommits { repo_id: RepoId(1) };
    assert_eq!(
        h.context_menu_activate_action(squash.clone(), None, false),
        Activation { step: ActivationStep::Nothing, after: AfterActivation::Close }
    );
    assert_eq!(
        h.context_menu_activate_action(squash, None, true).step,
        ActivationStep::DispatchThenOpen {
            msg: Msg::PrepareSquash { repo_id: RepoId(1) },
            popover: PopoverKind::SquashPrompt { repo_id: RepoId(1) }
        }
    );
}

#[test]
fn commit_actions_dispatch_or_confirm() {
    let h = host();
    let export = h.context_menu_activate_action(
        ContextMenuAction::ExportPatch { repo_id: RepoId(1), commit_id: "deadbeefcafe".to_string() },
        None,
        true,
    );
    assert_eq!(
        export,
        Activation {
            step: ActivationStep::PromptExportPatch {
                repo_id: RepoId(1),
                commit_id: "deadbeefcafe".to_string(),
                file_name: "commit-deadbeef.patch".to_string()
            },
            after: AfterActivation::Close,
        }
    );
    assert_eq!(
        h.context_menu_activate_action(
            ContextMenuAction::CompareWithWorkingTree {
                repo_id: RepoId(1),
                commit_id: "c".to_string(),
                label: "l".to_string()
            },
            None,
            true
        )
        .step,
        ActivationStep::Dispatch(Msg::CompareWithWorkingTree {
            repo_id: RepoId(1),
            from: "c".to_string(),
            from_label: "l".to_string()
        })
    );
    assert_eq!(
        h.context_menu_activate_action(
            ContextMenuAction::CherryPickCommit { repo_id: RepoId(1), commit_id: "c".to_string() },
            None,
            true
        )
        .after,
        AfterActivation::KeepOpen
    );
    assert!(autosquash_feedback(true).is_none());
    assert_eq!(autosquash_feedback(false).map(|(k, _)| k), Some(ToastKind::Warning));
}

fn dispatches(h: &PopoverHost, action: ContextMenuAction) -> Msg {
    match h.context_menu_activate_action(action, None, true) {
        Activation { step: ActivationStep::Dispatch(msg), after: AfterActivation::CloseAndRestoreFocus } => msg,
        other => panic!("expected a dispatch, got {other:?}"),
    }
}

#[test]
fn repository_and_branch_actions_dispatch_their_store_messages() {
    let h = host();
    let r = RepoId(1);
    assert_eq!(dispatches(&h, ContextMenuAction::ActivateRepo { repo_id: r }), Msg::SetActiveRepo { repo_id: r });
    assert_eq!(
        dispatches(&h, ContextMenuAction::OpenRepo { path: "/work/other".to_string() }),
        Msg::OpenRepo("/work/other".to_string())
    );
    assert_eq!(
        dispatches(&h, ContextMenuAction::CloseRepos { repo_ids: vec![RepoId(2), RepoId(3)], activate_after: Some(r) }),
        Msg::CloseRepos { repo_ids: vec![RepoId(2), RepoId(3)], activate_after: Some(r) }
    );
    assert_eq!(
        dispatches(&h, ContextMenuAction::PullBranch { repo_id: r, remote: "origin".to_string(), branch: "main".to_string() }),
        Msg::PullBranch { repo_id: r, remote: "origin".to_string(), branch: "main".to_string() }
    );
    assert_eq!(
        dispatches(&h, ContextMenuAction::PopStash { repo_id: r, index: 2 }),
        Msg::PopStash { repo_id: r, index: 2 }
    );
    assert_eq!(
        dispatches(&h, ContextMenuAction::SetUpstreamBranch {
            repo_id: r,
            branch: "main".to_string(),
            upstream: "origin/main".to_string(),
        }),
        Msg::SetUpstreamBranch { repo_id: r, branch: "main".to_string(), upstream: "origin/main".to_string() }
    );
    assert_eq!(
        dispatches(&h, ContextMenuAction::DeleteRemoteTag { repo_id: r, remote: "origin".to_string(), name: "v1".to_string() }),
        Msg::DeleteRemoteTag { repo_id: r, remote: "origin".to_string(), name: "v1".to_string() }
    );
}

#[test]
fn index_patches_stage_or_unstage_and_confirmations_open_their_dialogs() {
    let h = host();
    let r = RepoId(1);
    assert_eq!(
        dispatches(&h, ContextMenuAction::ApplyIndexPatch { repo_id: r, patch: "@@ x".to_string(), reverse: true }),
        Msg::UnstageHunk { repo_id: r, patch: "@@ x".to_string() }
    );
    assert_eq!(
        dispatches(&h, ContextMenuAction::ApplyIndexPatch { repo_id: r, patch: "@@ x".to_string(), reverse: false }),
        Msg::StageHunk { repo_id: r, patch: "@@ x".to_string() }
    );
    assert_eq!(
        h.context_menu_activate_action(
            ContextMenuAction::ApplyIndexPatch { repo_id: r, patch: "  ".to_string(), reverse: false },
            None,
            true
        )
        .step,
        ActivationStep::Toast { kind: ToastKind::Error, message: "Patch is empty".to_string() }
    );
    assert_eq!(
        h.context_menu_activate_action(
            ContextMenuAction::DropStashConfirm { repo_id: r, index: 0, message: "wip".to_string() },
            None,
            true
        ),
        Activation {
            step: ActivationStep::OpenPopover(PopoverKind::StashDropConfirm { repo_id: r, index: 0, message: "wip".to_string() }),
            after: AfterActivation::KeepOpen,
        }
    );
    assert_eq!(
        h.context_menu_activate_action(
            ContextMenuAction::DiscardWorktreeChangesSelectionOrPath {
                repo_id: r,
                area: DiffArea::Unstaged,
                path: "a.rs".to_string(),
            },
            None,
            true
        ),
        Activation {
            step: ActivationStep::OpenPopover(PopoverKind::DiscardChangesConfirm {
                repo_id: r,
                area: DiffArea::Unstaged,
                path: Some("a.rs".to_string()),
            }),
            after: AfterActivation::KeepOpen,
        }
    );
}

#[test]
fn setting_toggles_keep_the_menu_open_and_diff_settings_refocus_the_diff() {
    let h = host();
    assert_eq!(
        h.context_menu_activate_action(ContextMenuAction::SetDiffWordWrap { enabled: true }, None, true),
        Activation {
            step: ActivationStep::Toggle { setting: MenuToggle::DiffWordWrap, enabled: Some(true) },
            after: AfterActivation::StayOpenFocusDiff,
        }
    );
    assert_eq!(
        h.context_menu_activate_action(ContextMenuAction::SetCommitAmendEnabled { enabled: false }, None, true),
        Activation {
            step: ActivationStep::Toggle { setting: MenuToggle::CommitAmend, enabled: Some(false) },
            after: AfterActivation::StayOpen,
        }
    );
    assert_eq!(
        h.context_menu_activate_action(ContextMenuAction::ToggleMergetoolCollapseUnchanged, None, true),
        Activation {
            step: ActivationStep::Toggle { setting: MenuToggle::MergetoolCollapseUnchanged, enabled: None },
            after: AfterActivation::StayOpen,
        }
    );
    assert_eq!(
        h.context_menu_activate_action(
            ContextMenuAction::OpenRepositoryLocation { path: "/work/repo".to_string() },
            None,
            true
        ),
        Activation {
            step: ActivationStep::RevealPath { path: "/work/repo".to_string(), fallback: None },
            after: AfterActivation::CloseAndRestoreFocus,
        }
    );
}

#[test]
fn terminal_and_diff_copy_entries_name_their_target() {
    let h = host();
    assert_eq!(
        h.context_menu_activate_action(ContextMenuAction::TerminalClear { repo_id: RepoId(4) }, None, true),
        Activation {
            step: ActivationStep::Terminal { repo_id: RepoId(4), command: TerminalCommand::Clear },
            after: AfterActivation::CloseAndRestoreFocus,
        }
    );
    assert_eq!(
        h.context_menu_activate_action(ContextMenuAction::CopyDiffSelection { text: "+a".to_string() }, None, true)
            .step,
        ActivationStep::CopyDiffSelection("+a".to_string())
    );
}

#[test]
fn branch_scope_pull_and_whitespace_actions() {
    let h = host();
    let r = RepoId(1);
    let delete = ContextMenuAction::DeleteBranch { repo_id: r, name: "topic".to_string() };
    assert_eq!(
        h.context_menu_activate_action(delete, None, true),
        Activation {
            step: ActivationStep::ClearForceDeleteThenDispatch(Msg::DeleteBranch {
                repo_id: r,
                name: "topic".to_string()
            }),
            after: AfterActivation::CloseAndRestoreFocus,
        }
    );
    let pin = ContextMenuAction::ToggleBranchPin {
        repo_id: r,
        section: gitcomet::popover::BranchSection::Local,
        name: "main".to_string(),
    };
    assert_eq!(
        h.context_menu_activate_action(pin, None, true).step,
        ActivationStep::ToggleBranchPin {
            repo_id: r,
            section: gitcomet::popover::BranchSection::Local,
            name: "main".to_string()
        }
    );
    let scope = gitcomet::model::LogScope(2);
    assert_eq!(
        h.context_menu_activate_action(ContextMenuAction::SetHistoryScope { repo_id: r, scope }, None, true),
        Activation {
            step: ActivationStep::Dispatch(Msg::SetHistoryScope { repo_id: r, scope }),
            after: AfterActivation::CloseAndRestoreFocus,
        }
    );
    let mode = gitcomet::model::PullMode(1);
    assert_eq!(
        h.context_menu_activate_action(ContextMenuAction::Pull { repo_id: r, mode }, None, true).step,
        ActivationStep::Dispatch(Msg::Pull { repo_id: r, mode })
    );
    let ws = gitcomet::model::DiffWhitespaceMode(3);
    assert_eq!(
        h.context_menu_activate_action(ContextMenuAction::SetDiffWhitespaceMode { mode: ws }, None, true),
        Activation {
            step: ActivationStep::SetWhitespaceMode(ws),
            after: AfterActivation::StayOpenFocusDiff,
        }
    );
}
