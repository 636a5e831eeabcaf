use gitcomet::model::{AppState, Commit, RepoId};
use gitcomet::popover::{
    PopoverHost, PopoverKind, RepoPopoverKind, SubmodulePopoverKind, WorktreePopoverKind,
};
use gitcomet::search::{
    branch_picker_offers_refs, file_history_match_text, filter_by_query, match_branches,
    submodule_picker_state, worktree_picker_state,
};

fn host(popover: Option<PopoverKind>) -> PopoverHost {
    PopoverHost { state: AppState::new(), popover }
}

#[test]
fn branch_picker_offers_refs_for_branch_from_ref_and_worktree_add() {
    assert!(branch_picker_offers_refs(&host(Some(
        PopoverKind::CreateBranchFromRefPrompt { repo_id: RepoId(1) }
    ))));
    assert!(branch_picker_offers_refs(&host(Some(PopoverKind::worktree(
        RepoId(1),
        WorktreePopoverKind::AddPrompt
    )))));
    assert!(!branch_picker_offers_refs(&host(Some(PopoverKind::StashPrompt))));
    assert!(!branch_picker_offers_refs(&host(None)));
}

#[test]
fn picker_states_report_repo_and_removal() {
    let open = host(Some(PopoverKind::Repo {
        repo_id: RepoId(4),
        kind: RepoPopoverKind::Worktree(WorktreePopoverKind::OpenPicker),
    }));
    assert_eq!(worktree_picker_state(&open), Some((RepoId(4), false)));
    assert_eq!(submodule_picker_state(&open), None);
    let remove = host(Some(PopoverKind::submodule(
        RepoId(5),
        SubmodulePopoverKind::RemovePicker,
    )));
    assert_eq!(submodule_picker_state(&remove), Some((RepoId(5), true)));
    let menu = host(Some(PopoverKind::worktree(RepoId(5), WorktreePopoverKind::SectionMenu)));
    assert_eq!(worktree_picker_state(&menu), None);
}

#[test]
fn filter_by_query_keeps_order_and_matches_case_insensitively() {
    let items = vec![
        (1, "Feature/Login".to_string()),
        (2, "main".to_string()),
        (3, "fix-LOGIN".to_string()),
    ];
    assert_eq!(filter_by_query(items.clone(), "login"), vec![1, 3]);
    assert_eq!(filter_by_query(items.clone(), ""), vec![1, 2, 3]);
    assert_eq!(filter_by_query(items, "zzz"), Vec::<i32>::new());
}

#[test]
fn match_branches_orders_by_match_position_then_length_then_name() {
    let branches: Vec<String> = ["feature/main", "main", "maintenance", "xmain", "dev"]
        .iter()
        .map(|s| s.to_string())
        .collect();
    assert_eq!(
        match_branches(&branches, "MAIN"),
        vec!["main", "maintenance", "xmain", "feature/main"]
    );
    assert_eq!(match_branches(&branches, ""), branches);
    let ties: Vec<String> = ["b-x", "a-x"].iter().map(|s| s.to_string()).collect();
    assert_eq!(match_branches(&ties, "x"), vec!["a-x", "b-x"]);
}

#[test]
fn match_branches_counts_bytes_not_chars() {
    let branches: Vec<String> = ["ééx", "abcx"].iter().map(|s| s.to_string()).collect();
    // "x" starts at byte 3 in "abcx" and at byte 4 in "ééx".
    assert_eq!(match_branches(&branches, "x"), vec!["abcx", "ééx"]);
}

#[test]
fn file_history_text_is_short_sha_and_summary() {
    let commit = Commit {
        id: "deadbeefcafe".to_string(),
        parent_ids: vec![],
        summary: "fix: thing".to_string(),
        author: "a".to_string(),
    };
    assert_eq!(file_history_match_text(&commit), "deadbeeffix: thing");
    let short = Commit { id: "abc".to_string(), ..commit };
    assert_eq!(file_history_match_text(&short), "abcfix: thing");
}
