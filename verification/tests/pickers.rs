use gitcomet::message::Msg;
use gitcomet::model::{Branch, DiffTarget, RepoId, RepoState};
use gitcomet::pickers::{
    branch_picker_choice, branch_picker_items, file_history_enter, stash_picker_enter,
    submodule_picker_enter, submodule_picker_items, worktree_picker_enter, worktree_picker_items,
    PickOutcome, StashPickerPurpose, WorktreeEntry,
};

fn repo_with_branches(names: &[&str], head: Option<&str>) -> RepoState {
    let mut repo = RepoState::new_opening(RepoId(1), "/work/repo".to_string());
    repo.branches = Some(
        names
            .iter()
            .map(|n| Branch { name: n.to_string(), target: "abc".to_string(), upstream: None })
            .collect(),
    );
    repo.head_branch = head.map(|h| h.to_string());
    repo
}

#[test]
fn branch_picker_waits_for_branches() {
    let repo = RepoState::new_opening(RepoId(1), "/work/repo".to_string());
    assert_eq!(branch_picker_items(&repo, &None, false, false, ""), None);
}

#[test]
fn branch_picker_hides_current_branch_when_asked() {
    let repo = repo_with_branches(&["main", "feature", "fix"], Some("main"));
    assert_eq!(
        branch_picker_items(&repo, &None, true, false, ""),
        Some(vec!["feature".to_string(), "fix".to_string()])
    );
    assert_eq!(
        branch_picker_items(&repo, &None, false, false, ""),
        Some(vec!["main".to_string(), "feature".to_string(), "fix".to_string()])
    );
}

#[test]
fn branch_picker_with_refs_offers_head_and_tags() {
    let repo = repo_with_branches(&["main"], Some("main"));
    let tags = Some(vec!["v1.0".to_string()]);
    assert_eq!(
        branch_picker_items(&repo, &tags, false, true, ""),
        Some(vec!["HEAD".to_string(), "main".to_string(), "v1.0".to_string()])
    );
    assert_eq!(
        branch_picker_items(&repo, &tags, false, true, "v1"),
        Some(vec!["v1.0".to_string()])
    );
}

#[test]
fn branch_picker_choice_takes_typed_ref_only_when_refs_are_offered() {
    assert_eq!(
        branch_picker_choice(true, None, "origin/dev".to_string()),
        Some("origin/dev".to_string())
    );
    assert_eq!(
        branch_picker_choice(true, Some("main".to_string()), "ma".to_string()),
        Some("main".to_string())
    );
    assert_eq!(branch_picker_choice(true, None, String::new()), None);
    assert_eq!(branch_picker_choice(false, None, "origin/dev".to_string()), None);
    assert_eq!(
        branch_picker_choice(false, Some("x".to_string()), String::new()),
        Some("x".to_string())
    );
}

#[test]
fn stash_picker_runs_purpose_then_reloads() {
    let repo_id = RepoId(2);
    assert_eq!(
        stash_picker_enter(repo_id, StashPickerPurpose::Drop, 3),
        vec![Msg::DropStash { repo_id, index: 3 }, Msg::LoadStashes { repo_id }]
    );
    assert_eq!(
        stash_picker_enter(repo_id, StashPickerPurpose::Pop, 0)[0],
        Msg::PopStash { repo_id, index: 0 }
    );
    assert_eq!(
        stash_picker_enter(repo_id, StashPickerPurpose::Apply, 1)[0],
        Msg::ApplyStash { repo_id, index: 1 }
    );
}

#[test]
fn file_history_pick_selects_commit_and_file_diff() {
    let repo_id = RepoId(2);
    assert_eq!(
        file_history_enter(repo_id, "src/lib.rs".to_string(), "deadbeef".to_string()),
        vec![
            Msg::SelectCommit { repo_id, commit_id: "deadbeef".to_string() },
            Msg::SelectDiff {
                repo_id,
                target: DiffTarget::Commit {
                    commit_id: "deadbeef".to_string(),
                    path: Some("src/lib.rs".to_string()),
                },
            },
        ]
    );
}

#[test]
fn worktree_picker_skips_own_workdir_and_matches_branch() {
    let worktrees = vec![
        WorktreeEntry { path: "/work/repo".to_string(), branch: Some("main".to_string()) },
        WorktreeEntry { path: "/work/wt-a".to_string(), branch: Some("feature".to_string()) },
        WorktreeEntry { path: "/work/wt-b".to_string(), branch: None },
    ];
    assert_eq!(
        worktree_picker_items(&worktrees, "/work/repo", ""),
        vec!["/work/wt-a".to_string(), "/work/wt-b".to_string()]
    );
    assert_eq!(
        worktree_picker_items(&worktrees, "/work/repo", "FEAT"),
        vec!["/work/wt-a".to_string()]
    );
    assert_eq!(
        worktree_picker_enter(true, "/work/wt-a".to_string()),
        PickOutcome::ConfirmRemove { path: "/work/wt-a".to_string() }
    );
    assert_eq!(
        worktree_picker_enter(false, "/work/wt-a".to_string()),
        PickOutcome::Dispatch(Msg::OpenRepo("/work/wt-a".to_string()))
    );
}

#[test]
fn submodule_picker_filters_and_opens_joined_path() {
    let paths = vec!["libs/core".to_string(), "vendor/ui".to_string()];
    assert_eq!(submodule_picker_items(&paths, "ui"), vec!["vendor/ui".to_string()]);
    assert_eq!(
        submodule_picker_enter(false, "/work/repo", "libs/core".to_string()),
        PickOutcome::Dispatch(Msg::OpenRepo("/work/repo/libs/core".to_string()))
    );
    assert_eq!(
        submodule_picker_enter(false, "/work/repo/", "libs/core".to_string()),
        PickOutcome::Dispatch(Msg::OpenRepo("/work/repo/libs/core".to_string()))
    );
    assert_eq!(
        submodule_picker_enter(true, "/work/repo", "libs/core".to_string()),
        PickOutcome::ConfirmRemove { path: "libs/core".to_string() }
    );
}
