use gitcomet::model::{AppState, DiagnosticKind, RepoId, RepoState};
use gitcomet::virtual_branches::{
    apply_virtual_branch, assign_path_to_virtual_branch, create_virtual_branch,
    delete_virtual_branch, move_hunk_to_virtual_branch, prune_virtual_branches,
    rename_virtual_branch, unapply_virtual_branch, unassign_path_from_virtual_branch,
    virtual_branch_applied, virtual_branch_hunk_moved, virtual_branch_unapplied, Effect,
};

fn fixture_repo() -> (AppState, RepoId) {
    let repo_id = RepoId(1);
    let mut state = AppState::new();
    state.repos.push(RepoState::new_opening(repo_id, "/tmp/repo".to_string()));
    state.active_repo = Some(repo_id);
    (state, repo_id)
}

fn branch_ids(state: &AppState) -> Vec<u64> {
    state.repos[0].virtual_branches.iter().map(|b| b.id).collect()
}

/// The effects that ask the backend for work; persisting the workspace is
/// the store's own bookkeeping.
fn backend_effects(effects: Vec<Effect>) -> Vec<Effect> {
    effects
        .into_iter()
        .filter(|e| !matches!(e, Effect::PersistVirtualBranches { .. }))
        .collect()
}

fn has_persist_effect(effects: &[Effect]) -> bool {
    effects
        .iter()
        .any(|e| matches!(e, Effect::PersistVirtualBranches { .. }))
}

#[test]
fn create_assigns_incrementing_ids_and_default_name() {
    let (mut state, repo_id) = fixture_repo();
    let effects = create_virtual_branch(&mut state, repo_id, String::new());
    assert!(backend_effects(effects).is_empty());
    let effects = create_virtual_branch(&mut state, repo_id, "feature".into());
    assert!(backend_effects(effects).is_empty());
    let branches = &state.repos[0].virtual_branches;
    assert_eq!(branches.len(), 2);
    assert_eq!(branch_ids(&state), vec![1, 2]);
    assert_eq!(branches[0].name.as_str(), "Branch 1");
    assert_eq!(branches[1].name.as_str(), "feature");
    assert!(branches.iter().all(|b| b.applied && !b.pending && b.paths.is_empty()));
}

#[test]
fn assign_path_moves_it_between_branches() {
    let (mut state, repo_id) = fixture_repo();
    for name in ["a", "b"] {
        let _ = create_virtual_branch(&mut state, repo_id, name.into());
    }
    let path = "src/lib.rs".to_string();
    let _ = assign_path_to_virtual_branch(&mut state, repo_id, 1, path.clone());
    let _ = assign_path_to_virtual_branch(&mut state, repo_id, 2, path.clone());
    let branches = &state.repos[0].virtual_branches;
    assert!(branches[0].paths.is_empty());
    assert_eq!(branches[1].paths, vec![path]);
}

#[test]
fn unassign_path_removes_it_from_branch() {
    let (mut state, repo_id) = fixture_repo();
    let _ = create_virtual_branch(&mut state, repo_id, "a".into());
    let path = "src/lib.rs".to_string();
    let _ = assign_path_to_virtual_branch(&mut state, repo_id, 1, path.clone());
    let _ = unassign_path_from_virtual_branch(&mut state, repo_id, 1, path);
    assert!(state.repos[0].virtual_branches[0].paths.is_empty());
}

#[test]
fn rename_and_delete_virtual_branch() {
    let (mut state, repo_id) = fixture_repo();
    let _ = create_virtual_branch(&mut state, repo_id, "old".into());
    let _ = rename_virtual_branch(&mut state, repo_id, 1, "new".into());
    assert_eq!(state.repos[0].virtual_branches[0].name.as_str(), "new");
    let _ = delete_virtual_branch(&mut state, repo_id, 1);
    assert!(state.repos[0].virtual_branches.is_empty());
}

#[test]
fn unapply_dispatches_effect_with_paths_and_marks_pending() {
    let (mut state, repo_id) = fixture_repo();
    let _ = create_virtual_branch(&mut state, repo_id, "a".into());
    let path = "src/lib.rs".to_string();
    let _ = assign_path_to_virtual_branch(&mut state, repo_id, 1, path.clone());
    let effects = unapply_virtual_branch(&mut state, repo_id, 1);
    assert_eq!(effects.len(), 1);
    let Effect::UnapplyVirtualBranch {
        repo_id: rid,
        branch_id,
        paths: effect_paths,
    } = &effects[0]
    else {
        panic!("expected UnapplyVirtualBranch effect");
    };
    assert_eq!(*rid, repo_id);
    assert_eq!(*branch_id, 1);
    assert_eq!(*effect_paths, vec![path]);
    let branch = &state.repos[0].virtual_branches[0];
    assert!(branch.pending);
    assert!(branch.applied);
}

#[test]
fn unapply_without_paths_is_noop() {
    let (mut state, repo_id) = fixture_repo();
    let _ = create_virtual_branch(&mut state, repo_id, "empty".into());
    let effects = unapply_virtual_branch(&mut state, repo_id, 1);
    assert!(effects.is_empty());
    let branch = &state.repos[0].virtual_branches[0];
    assert!(branch.applied && !branch.pending);
}

#[test]
fn unapplied_result_stores_patch_and_marks_unapplied() {
    let (mut state, repo_id) = fixture_repo();
    let _ = create_virtual_branch(&mut state, repo_id, "a".into());
    let _ = assign_path_to_virtual_branch(&mut state, repo_id, 1, "src/lib.rs".into());
    let _ = unapply_virtual_branch(&mut state, repo_id, 1);
    let effects = virtual_branch_unapplied(
        &mut state,
        repo_id,
        1,
        Ok("diff --git a/src/lib.rs b/src/lib.rs".to_string()),
    );
    assert!(backend_effects(effects).is_empty());
    let branch = &state.repos[0].virtual_branches[0];
    assert!(!branch.pending);
    assert!(!branch.applied);
    assert_eq!(
        branch.stored_patch.as_deref(),
        Some("diff --git a/src/lib.rs b/src/lib.rs")
    );
}

#[test]
fn unapplied_error_keeps_applied_and_reports_diagnostic() {
    let (mut state, repo_id) = fixture_repo();
    let _ = create_virtual_branch(&mut state, repo_id, "a".into());
    let _ = assign_path_to_virtual_branch(&mut state, repo_id, 1, "src/lib.rs".into());
    let _ = unapply_virtual_branch(&mut state, repo_id, 1);
    let _ = virtual_branch_unapplied(&mut state, repo_id, 1, Err("boom".to_string()));
    let branch = &state.repos[0].virtual_branches[0];
    assert!(!branch.pending);
    assert!(branch.applied);
    assert!(branch.stored_patch.is_none());
    assert!(!state.repos[0].diagnostics.is_empty());
    assert_eq!(state.repos[0].diagnostics[0].kind, DiagnosticKind::Error);
}

#[test]
fn apply_dispatches_effect_and_clears_patch_on_success() {
    let (mut state, repo_id) = fixture_repo();
    let _ = create_virtual_branch(&mut state, repo_id, "a".into());
    let patch = "diff --git a/src/lib.rs b/src/lib.rs".to_string();
    state.repos[0].virtual_branches[0].applied = false;
    state.repos[0].virtual_branches[0].stored_patch = Some(patch.clone());
    let effects = apply_virtual_branch(&mut state, repo_id, 1);
    assert_eq!(effects.len(), 1);
    let Effect::ApplyVirtualBranch {
        repo_id: rid,
        branch_id,
        patch: effect_patch,
    } = &effects[0]
    else {
        panic!("expected ApplyVirtualBranch effect");
    };
    assert_eq!(*rid, repo_id);
    assert_eq!(*branch_id, 1);
    assert_eq!(*effect_patch, patch);
    let _ = virtual_branch_applied(&mut state, repo_id, 1, Ok(()));
    let branch = &state.repos[0].virtual_branches[0];
    assert!(!branch.pending);
    assert!(branch.applied);
    assert!(branch.stored_patch.is_none());
}

#[test]
fn apply_without_stored_patch_is_noop() {
    let (mut state, repo_id) = fixture_repo();
    let _ = create_virtual_branch(&mut state, repo_id, "a".into());
    let effects = apply_virtual_branch(&mut state, repo_id, 1);
    assert!(effects.is_empty());
}

fn move_hunk_patch() -> String {
    "@@ -1,3 +1,4 @@\n fn a() {\n+    let x = 1;\n-    let y = 2;\n }\n".to_string()
}

#[test]
fn move_hunk_dispatches_reverse_apply_effect_and_marks_pending() {
    let (mut state, repo_id) = fixture_repo();
    let _ = create_virtual_branch(&mut state, repo_id, "target".into());
    let path = "src/lib.rs".to_string();
    let patch = move_hunk_patch();
    let effects = move_hunk_to_virtual_branch(&mut state, repo_id, 1, patch.clone(), path.clone());
    assert_eq!(effects.len(), 1);
    let Effect::MoveHunkToVirtualBranch {
        repo_id: rid,
        branch_id,
        patch: effect_patch,
        path: effect_path,
    } = &effects[0]
    else {
        panic!("expected MoveHunkToVirtualBranch effect");
    };
    assert_eq!(*rid, repo_id);
    assert_eq!(*branch_id, 1);
    assert_eq!(*effect_patch, patch);
    assert_eq!(*effect_path, path);
    let branch = &state.repos[0].virtual_branches[0];
    assert!(branch.pending);
    assert!(branch.applied);
    assert!(branch.stored_patch.is_none());
    assert!(branch.paths.is_empty());
}

#[test]
fn move_hunk_empty_patch_is_noop() {
    let (mut state, repo_id) = fixture_repo();
    let _ = create_virtual_branch(&mut state, repo_id, "target".into());
    let effects =
        move_hunk_to_virtual_branch(&mut state, repo_id, 1, "   ".to_string(), "src/lib.rs".into());
    assert!(effects.is_empty());
    let branch = &state.repos[0].virtual_branches[0];
    assert!(!branch.pending);
}

#[test]
fn move_hunk_success_parks_patch_and_assigns_path() {
    let (mut state, repo_id) = fixture_repo();
    for name in ["other", "target"] {
        let _ = create_virtual_branch(&mut state, repo_id, name.into());
    }
    let path = "src/lib.rs".to_string();
    let _ = assign_path_to_virtual_branch(&mut state, repo_id, 1, path.clone());
    let patch = move_hunk_patch();
    let _ = move_hunk_to_virtual_branch(&mut state, repo_id, 2, patch.clone(), path.clone());
    let effects = virtual_branch_hunk_moved(&mut state, repo_id, 2, path.clone(), Ok(patch.clone()));
    assert!(backend_effects(effects).is_empty());
    let branches = &state.repos[0].virtual_branches;
    let target = &branches[1];
    assert!(!target.pending);
    assert!(!target.applied);
    assert_eq!(target.stored_patch.as_deref(), Some(patch.trim_end()));
    assert_eq!(target.paths, vec![path]);
    assert!(branches[0].paths.is_empty());
}

#[test]
fn move_hunk_appends_to_existing_parked_patch() {
    let (mut state, repo_id) = fixture_repo();
    let _ = create_virtual_branch(&mut state, repo_id, "target".into());
    let first = "@@ -1,1 +1,1 @@\n-a\n+b\n".to_string();
    let second = "@@ -5,1 +5,1 @@\n-c\n+d\n".to_string();
    let _ = move_hunk_to_virtual_branch(&mut state, repo_id, 1, first.clone(), "src/a.rs".into());
    let _ = virtual_branch_hunk_moved(&mut state, repo_id, 1, "src/a.rs".into(), Ok(first.clone()));
    let _ = move_hunk_to_virtual_branch(&mut state, repo_id, 1, second.clone(), "src/b.rs".into());
    let _ = virtual_branch_hunk_moved(&mut state, repo_id, 1, "src/b.rs".into(), Ok(second.clone()));
    let branch = &state.repos[0].virtual_branches[0];
    assert_eq!(
        branch.stored_patch.as_deref(),
        Some(format!("{}\n{}", first.trim_end(), second.trim_end()).as_str())
    );
    assert_eq!(branch.paths.len(), 2);
}

#[test]
fn move_hunk_error_reports_diagnostic_without_recording() {
    let (mut state, repo_id) = fixture_repo();
    let _ = create_virtual_branch(&mut state, repo_id, "target".into());
    let path = "src/lib.rs".to_string();
    let _ = move_hunk_to_virtual_branch(&mut state, repo_id, 1, move_hunk_patch(), path.clone());
    let _ = virtual_branch_hunk_moved(
        &mut state,
        repo_id,
        1,
        path.clone(),
        Err("patch does not apply".to_string()),
    );
    let branch = &state.repos[0].virtual_branches[0];
    assert!(!branch.pending);
    assert!(branch.applied);
    assert!(branch.stored_patch.is_none());
    assert!(branch.paths.is_empty());
    assert!(!state.repos[0].diagnostics.is_empty());
}

#[test]
fn unapply_after_move_appends_captured_diff_to_parked_patch() {
    let (mut state, repo_id) = fixture_repo();
    let _ = create_virtual_branch(&mut state, repo_id, "target".into());
    let parked = "@@ -1,1 +1,1 @@\n-a\n+b\n".to_string();
    let _ = virtual_branch_hunk_moved(&mut state, repo_id, 1, "src/lib.rs".into(), Ok(parked.clone()));
    let captured = "diff --git a/src/lib.rs b/src/lib.rs".to_string();
    let _ = virtual_branch_unapplied(&mut state, repo_id, 1, Ok(captured.clone()));
    let branch = &state.repos[0].virtual_branches[0];
    assert_eq!(
        branch.stored_patch.as_deref(),
        Some(format!("{}\n{captured}", parked.trim_end()).as_str())
    );
}

#[test]
fn prune_virtual_branches_removes_only_given_ids_and_persists() {
    let (mut state, repo_id) = fixture_repo();
    for _ in 0..3 {
        let _ = create_virtual_branch(&mut state, repo_id, String::new());
    }
    let effects = prune_virtual_branches(&mut state, repo_id, vec![1, 3]);
    assert!(has_persist_effect(&effects));
    assert_eq!(branch_ids(&state), vec![2]);

    // Pruning nothing is a no-op.
    let effects = prune_virtual_branches(&mut state, repo_id, vec![999]);
    assert!(effects.is_empty());
    assert_eq!(branch_ids(&state), vec![2]);
}

#[test]
fn create_persists_the_workspace_with_the_next_id() {
    let (mut state, repo_id) = fixture_repo();
    let effects = create_virtual_branch(&mut state, repo_id, "x".into());
    assert_eq!(effects.len(), 1);
    let Effect::PersistVirtualBranches { repo_id: rid, workdir, data, action } = &effects[0] else {
        panic!("expected a persist effect");
    };
    assert_eq!(*rid, Some(repo_id));
    assert_eq!(workdir.as_str(), "/tmp/repo");
    assert_eq!(data.next_id, 2);
    assert_eq!(data.branches.len(), 1);
    assert_eq!(*action, "creating a virtual branch");
    assert_eq!(state.repos[0].virtual_branches_rev, 1);
}

#[test]
fn reducers_on_an_unknown_repository_do_nothing() {
    let (mut state, _) = fixture_repo();
    let before = state.clone();
    assert!(create_virtual_branch(&mut state, RepoId(9), "x".into()).is_empty());
    assert!(delete_virtual_branch(&mut state, RepoId(9), 1).is_empty());
    assert_eq!(state, before);
}

#[test]
fn a_path_belongs_to_at_most_one_branch() {
    let (mut state, repo_id) = fixture_repo();
    for name in ["a", "b", "c"] {
        let _ = create_virtual_branch(&mut state, repo_id, name.into());
    }
    for id in [1, 2, 3, 2] {
        let _ = assign_path_to_virtual_branch(&mut state, repo_id, id, "f.rs".into());
    }
    let owners = state.repos[0]
        .virtual_branches
        .iter()
        .filter(|b| b.paths.iter().any(|p| p == "f.rs"))
        .count();
    assert_eq!(owners, 1);
}

#[test]
fn unapply_then_apply_restores_the_branch() {
    let (mut state, repo_id) = fixture_repo();
    let _ = create_virtual_branch(&mut state, repo_id, "a".into());
    let _ = assign_path_to_virtual_branch(&mut state, repo_id, 1, "src/lib.rs".into());
    let before = state.repos[0].virtual_branches[0].clone();
    let _ = unapply_virtual_branch(&mut state, repo_id, 1);
    let _ = virtual_branch_unapplied(&mut state, repo_id, 1, Ok("patch".into()));
    let _ = apply_virtual_branch(&mut state, repo_id, 1);
    let _ = virtual_branch_applied(&mut state, repo_id, 1, Ok(()));
    assert_eq!(state.repos[0].virtual_branches[0], before);
}

#[test]
fn assign_leaves_a_path_on_one_branch_even_when_it_was_listed_twice() {
    let (mut state, repo_id) = fixture_repo();
    for name in ["a", "b", "c"] {
        let _ = create_virtual_branch(&mut state, repo_id, name.into());
    }
    let p = "src/x.rs".to_string();
    state.repos[0].virtual_branches[0].paths = vec![p.clone(), "keep.rs".to_string(), p.clone()];
    state.repos[0].virtual_branches[1].paths = vec![p.clone()];
    let rev = state.repos[0].virtual_branches_rev;
    let effects = assign_path_to_virtual_branch(&mut state, repo_id, 3, p.clone());
    assert!(has_persist_effect(&effects));
    let branches = &state.repos[0].virtual_branches;
    assert_eq!(branches[0].paths, vec!["keep.rs".to_string()]);
    assert!(branches[1].paths.is_empty());
    assert_eq!(branches[2].paths, vec![p.clone()]);
    assert_eq!(state.repos[0].virtual_branches_rev, rev + 1);
}
