use gitcomet::message::Msg;
use gitcomet::model::{AppState, RepoId, RepoState, VirtualBranch};
use gitcomet::popover::PopoverKind;
use gitcomet::virtual_branch_panel::{
    commit_branch, prune_confirm, virtual_branch_pick_rows, virtual_branch_row,
    virtual_branch_row_click, virtual_branch_rows, BranchToggle, RowButton,
};

fn branch(id: u64, name: &str, paths: &[&str], applied: bool, pending: bool) -> VirtualBranch {
    VirtualBranch {
        id,
        name: name.to_string(),
        paths: paths.iter().map(|p| p.to_string()).collect(),
        applied,
        stored_patch: None,
        pending,
    }
}

fn state_with(branches: Vec<VirtualBranch>) -> (AppState, RepoId) {
    let repo_id = RepoId(3);
    let mut state = AppState::new();
    let mut repo = RepoState::new_opening(repo_id, "/tmp/repo".to_string());
    repo.virtual_branches = branches;
    state.repos.push(repo);
    state.active_repo = Some(repo_id);
    (state, repo_id)
}

#[test]
fn applied_row_offers_unapply_and_counts_files() {
    let row = virtual_branch_row(&branch(1, "feature", &["a.rs", "b.rs"], true, false));
    assert_eq!(row.branch_id, 1);
    assert_eq!(row.name, "feature");
    assert_eq!(row.status, "applied · 2 file(s)");
    assert_eq!(row.toggle, BranchToggle::Unapply);
    assert!(row.toggle_enabled);
    assert!(row.commit_enabled);
    assert!(row.delete_enabled);
}

#[test]
fn applied_row_without_paths_cannot_unapply_or_commit() {
    let row = virtual_branch_row(&branch(1, "empty", &[], true, false));
    assert_eq!(row.status, "applied · 0 file(s)");
    assert!(!row.toggle_enabled);
    assert!(!row.commit_enabled);
    assert!(row.delete_enabled);
}

#[test]
fn unapplied_row_offers_apply_even_without_paths() {
    let row = virtual_branch_row(&branch(2, "parked", &[], false, false));
    assert_eq!(row.status, "unapplied · 0 file(s)");
    assert_eq!(row.toggle, BranchToggle::Apply);
    assert!(row.toggle_enabled);
}

#[test]
fn pending_row_disables_toggle_and_delete() {
    let row = virtual_branch_row(&branch(2, "busy", &["x"], false, true));
    assert_eq!(row.status, "… · 1 file(s)");
    assert!(!row.toggle_enabled);
    assert!(row.commit_enabled);
    assert!(!row.delete_enabled);
}

#[test]
fn rows_follow_branch_order_and_unknown_repo_has_none() {
    let (state, repo_id) = state_with(vec![
        branch(5, "one", &["a"], true, false),
        branch(2, "two", &[], false, false),
    ]);
    let rows = virtual_branch_rows(&state, repo_id);
    assert_eq!(rows.iter().map(|r| r.branch_id).collect::<Vec<_>>(), vec![5, 2]);
    assert!(virtual_branch_rows(&state, RepoId(99)).is_empty());
}

#[test]
fn commit_branch_stages_paths_then_opens_commit_prompt() {
    let repo_id = RepoId(3);
    let out = commit_branch(repo_id, &vec!["a.rs".to_string(), "b.rs".to_string()]);
    assert_eq!(
        out.msgs,
        vec![Msg::StagePaths { repo_id, paths: vec!["a.rs".to_string(), "b.rs".to_string()] }]
    );
    assert_eq!(out.open, Some(PopoverKind::CommitPrompt { repo_id }));

    let out = commit_branch(repo_id, &Vec::new());
    assert!(out.msgs.is_empty());
    assert_eq!(out.open, Some(PopoverKind::CommitPrompt { repo_id }));
}

#[test]
fn row_clicks_dispatch_branch_messages() {
    let repo_id = RepoId(3);
    let applied = branch(7, "f", &["a"], true, false);
    let out = virtual_branch_row_click(repo_id, &applied, RowButton::Toggle);
    assert_eq!(out.msgs, vec![Msg::UnapplyVirtualBranch { repo_id, branch_id: 7 }]);
    assert_eq!(out.open, None);

    let unapplied = branch(8, "g", &[], false, false);
    let out = virtual_branch_row_click(repo_id, &unapplied, RowButton::Toggle);
    assert_eq!(out.msgs, vec![Msg::ApplyVirtualBranch { repo_id, branch_id: 8 }]);

    let out = virtual_branch_row_click(repo_id, &unapplied, RowButton::Delete);
    assert_eq!(out.msgs, vec![Msg::DeleteVirtualBranch { repo_id, branch_id: 8 }]);

    let out = virtual_branch_row_click(repo_id, &applied, RowButton::Commit);
    assert_eq!(out.open, Some(PopoverKind::CommitPrompt { repo_id }));
    assert_eq!(out.msgs.len(), 1);
}

#[test]
fn disabled_row_buttons_do_nothing() {
    let repo_id = RepoId(3);
    let pending = branch(9, "p", &[], true, true);
    for button in [RowButton::Toggle, RowButton::Commit, RowButton::Delete] {
        let out = virtual_branch_row_click(repo_id, &pending, button);
        assert!(out.msgs.is_empty());
        assert_eq!(out.open, None);
    }
}

#[test]
fn pick_rows_assign_the_path_to_the_picked_branch() {
    let (state, repo_id) = state_with(vec![
        branch(1, "one", &["a", "b", "c"], true, false),
        branch(4, "four", &[], true, false),
    ]);
    let path = "src/main.rs".to_string();
    let rows = virtual_branch_pick_rows(&state, repo_id, &path);
    assert_eq!(rows.len(), 2);
    assert_eq!(rows[0].name, "one");
    assert_eq!(rows[0].count_label, "3 file(s)");
    assert_eq!(rows[1].count_label, "0 file(s)");
    assert_eq!(
        rows[1].on_pick,
        Msg::AssignPathToVirtualBranch { repo_id, branch_id: 4, path: path.clone() }
    );
    assert!(virtual_branch_pick_rows(&state, RepoId(42), &path).is_empty());
}

#[test]
fn prune_confirm_lists_known_branch_names() {
    let (state, repo_id) = state_with(vec![
        branch(1, "one", &[], true, false),
        branch(2, "two", &[], true, false),
        branch(3, "three", &[], true, false),
    ]);
    let confirm = prune_confirm(&state, repo_id, vec![3, 99, 1]);
    assert_eq!(confirm.list, "three\none");
    assert_eq!(
        confirm.on_remove,
        Msg::PruneVirtualBranches { repo_id, branch_ids: vec![3, 99, 1] }
    );

    let confirm = prune_confirm(&state, repo_id, vec![42]);
    assert_eq!(confirm.list, "(no branches)");
    let confirm = prune_confirm(&state, RepoId(8), vec![1]);
    assert_eq!(confirm.list, "(no branches)");
}
