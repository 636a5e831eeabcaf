use gitcomet::context_menu::discard::{discard_targets, DiscardTargets};
use gitcomet::message::Msg;
use gitcomet::model::{AppState, DiffArea, DiffTarget, RepoId, RepoState};
use gitcomet::popover::PopoverHost;

fn strings(v: &[&str]) -> Vec<String> {
    v.iter().map(|s| s.to_string()).collect()
}

fn host(selected: Option<&str>) -> PopoverHost {
    let mut repo = RepoState::new_opening(RepoId(1), "/tmp/repo".to_string());
    repo.diff_target = selected.map(|p| DiffTarget::WorkingTree { path: p.to_string(), area: DiffArea::Unstaged });
    let mut state = AppState::new();
    state.active_repo = Some(RepoId(1));
    state.repos.push(repo);
    PopoverHost { state, popover: None }
}

#[test]
fn a_clicked_path_inside_a_multi_selection_discards_the_selection() {
    assert_eq!(
        discard_targets(Some("b".to_string()), Some(strings(&["a", "b"]))),
        DiscardTargets { paths: strings(&["a", "b"]), takes_selection: true }
    );
    assert_eq!(
        discard_targets(Some("c".to_string()), Some(strings(&["a", "b"]))),
        DiscardTargets { paths: strings(&["c"]), takes_selection: false }
    );
    assert_eq!(
        discard_targets(Some("a".to_string()), Some(strings(&["a"]))),
        DiscardTargets { paths: strings(&["a"]), takes_selection: false }
    );
    assert_eq!(
        discard_targets(Some("a".to_string()), None),
        DiscardTargets { paths: strings(&["a"]), takes_selection: false }
    );
    assert_eq!(
        discard_targets(None, Some(strings(&["x"]))),
        DiscardTargets { paths: strings(&["x"]), takes_selection: true }
    );
    assert_eq!(discard_targets(None, None), DiscardTargets { paths: vec![], takes_selection: false });
}

#[test]
fn discarding_several_paths_clears_the_diff_selection_first() {
    let msgs = host(None).discard_worktree_changes_confirmed(RepoId(1), strings(&["a", "b"]), false);
    assert_eq!(
        msgs,
        vec![
            Msg::ClearDiffSelection { repo_id: RepoId(1) },
            Msg::DiscardWorktreeChangesPaths { repo_id: RepoId(1), paths: strings(&["a", "b"]) },
        ]
    );
    assert!(host(None).discard_worktree_changes_confirmed(RepoId(1), vec![], false).is_empty());
}

#[test]
fn discarding_one_path_moves_the_diff_view_off_it() {
    let modified = host(None).discard_worktree_changes_confirmed(RepoId(1), strings(&["src/lib.rs"]), false);
    assert_eq!(
        modified,
        vec![
            Msg::SelectDiff {
                repo_id: RepoId(1),
                target: DiffTarget::WorkingTree { path: "src/lib.rs".to_string(), area: DiffArea::Unstaged },
            },
            Msg::DiscardWorktreeChangesPath { repo_id: RepoId(1), path: "src/lib.rs".to_string() },
        ]
    );

    let added_shown = host(Some("new.rs")).discard_worktree_changes_confirmed(RepoId(1), strings(&["new.rs"]), true);
    assert_eq!(
        added_shown,
        vec![
            Msg::ClearDiffSelection { repo_id: RepoId(1) },
            Msg::DiscardWorktreeChangesPath { repo_id: RepoId(1), path: "new.rs".to_string() },
        ]
    );

    let added_elsewhere = host(Some("other.rs")).discard_worktree_changes_confirmed(RepoId(1), strings(&["new.rs"]), true);
    assert_eq!(
        added_elsewhere,
        vec![Msg::DiscardWorktreeChangesPath { repo_id: RepoId(1), path: "new.rs".to_string() }]
    );
}
