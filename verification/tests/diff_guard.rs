use gitcomet::diff_guard::{selected_diff_loads, SelectedDiffLoad, SelectedDiffLoadGuard, SelectedDiffLoadOptions};
use gitcomet::model::{AppState, DiffArea, DiffTarget, RepoId, RepoState};

fn target(path: &str) -> DiffTarget {
    DiffTarget::WorkingTree {
        path: path.to_string(),
        area: DiffArea::Unstaged,
    }
}

fn state_with_target(repo_id: RepoId, selected: DiffTarget, target_rev: u64) -> AppState {
    let mut repo = RepoState::new_opening(repo_id, "/tmp/selected-diff-guard-test".to_string());
    repo.diff_target = Some(selected);
    repo.diff_target_rev = target_rev;

    let mut state = AppState::new();
    state.repos.push(repo);
    state
}

#[test]
fn selected_diff_guard_accepts_current_target_and_revision() {
    let repo_id = RepoId(1);
    let selected = target("src/lib.rs");
    let state = state_with_target(repo_id, selected.clone(), 7);
    let guard = SelectedDiffLoadGuard::new(repo_id, selected, 7);

    assert!(guard.is_current(&state));
}

#[test]
fn selected_diff_guard_rejects_stale_target_or_revision() {
    let repo_id = RepoId(1);
    let selected = target("src/lib.rs");
    let state = state_with_target(repo_id, selected.clone(), 7);

    let stale_revision = SelectedDiffLoadGuard::new(repo_id, selected.clone(), 6);
    assert!(!stale_revision.is_current(&state));

    let stale_target = SelectedDiffLoadGuard::new(repo_id, target("src/main.rs"), 7);
    assert!(!stale_target.is_current(&state));

    let closed = SelectedDiffLoadGuard::new(RepoId(2), selected, 7);
    assert!(!closed.is_current(&state));
}

#[test]
fn selected_diff_loads_follow_the_options_in_start_order() {
    let all = SelectedDiffLoadOptions {
        load_patch_diff: true,
        load_file_text: true,
        preview_text_side: Some(2u8),
        load_submodule_summary: true,
        load_file_image: true,
    };
    assert_eq!(
        selected_diff_loads(&all),
        vec![
            SelectedDiffLoad::SubmoduleSummary,
            SelectedDiffLoad::FileImage,
            SelectedDiffLoad::PreviewText(2u8),
            SelectedDiffLoad::FileText,
            SelectedDiffLoad::PatchDiff,
        ]
    );

    let patch_only = SelectedDiffLoadOptions::<u8> {
        load_patch_diff: true,
        load_file_text: false,
        preview_text_side: None,
        load_submodule_summary: false,
        load_file_image: false,
    };
    assert_eq!(selected_diff_loads(&patch_only), vec![SelectedDiffLoad::PatchDiff]);

    let nothing = SelectedDiffLoadOptions::<u8> { load_patch_diff: false, ..patch_only };
    assert!(selected_diff_loads(&nothing).is_empty());
}
