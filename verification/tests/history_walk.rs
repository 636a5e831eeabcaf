use gitcomet::log::{
    history_mode_includes, history_walk_plan, log_page_from_paged_walk_state,
    log_page_from_walk_filtered, HistoryMode, HistoryWalkPlan, LogCursor,
};
use gitcomet::model::Commit;

fn commit(id: &str, parents: usize, author: &str) -> Commit {
    Commit {
        id: id.to_string(),
        parent_ids: (0..parents).map(|i| format!("p{i}")).collect(),
        summary: "msg".to_string(),
        author: author.to_string(),
    }
}

fn ids(commits: &[Commit]) -> Vec<&str> {
    commits.iter().map(|c| c.id.as_str()).collect()
}

fn walk() -> Vec<Commit> {
    vec![
        commit("a", 1, "ada"),
        commit("m1", 2, "ada"),
        commit("b", 1, "bob"),
        commit("m2", 3, "bob"),
        commit("c", 0, "ada"),
    ]
}

#[test]
fn modes_keep_merges_or_leave_them_out() {
    assert!(history_mode_includes(HistoryMode::NoMerges, 1));
    assert!(!history_mode_includes(HistoryMode::NoMerges, 2));
    assert!(history_mode_includes(HistoryMode::MergesOnly, 2));
    assert!(!history_mode_includes(HistoryMode::MergesOnly, 1));
    assert!(history_mode_includes(HistoryMode::FullReachable, 5));
    assert!(history_mode_includes(HistoryMode::FirstParent, 0));
}

#[test]
fn filtered_walk_pages_by_mode() {
    let w = walk();
    let page = log_page_from_walk_filtered(&w, 2, None, None, HistoryMode::NoMerges);
    assert_eq!(ids(&page.commits), vec!["a", "b"]);
    assert_eq!(page.next_cursor.as_ref().map(|c| c.last_seen.as_str()), Some("b"));

    let merges = log_page_from_walk_filtered(&w, 5, None, None, HistoryMode::MergesOnly);
    assert_eq!(ids(&merges.commits), vec!["m1", "m2"]);
    assert!(merges.next_cursor.is_none());

    let cursor = LogCursor { last_seen: "m1".to_string(), resume_from: None, resume_token: None };
    let after = log_page_from_walk_filtered(&w, 5, Some(&cursor), Some("ADA"), HistoryMode::NoMerges);
    assert_eq!(ids(&after.commits), vec!["c"]);
}

#[test]
fn paged_walk_reports_more_even_when_the_next_commit_fails_the_author_filter() {
    let w = walk();
    let (commits, has_more) =
        log_page_from_paged_walk_state(&w, 1, None, Some("ada"), HistoryMode::NoMerges);
    assert_eq!(ids(&commits), vec!["a"]);
    assert!(has_more);

    let (commits, has_more) =
        log_page_from_paged_walk_state(&w, 2, None, Some("ada"), HistoryMode::NoMerges);
    assert_eq!(ids(&commits), vec!["a", "c"]);
    assert!(!has_more);

    let (commits, has_more) =
        log_page_from_paged_walk_state(&w, 2, None, None, HistoryMode::FullReachable);
    assert_eq!(ids(&commits), vec!["a", "m1"]);
    assert!(has_more);
}

#[test]
fn paged_walk_without_author_takes_the_plain_page() {
    let w = walk();
    for limit in 1..6 {
        for mode in [HistoryMode::FullReachable, HistoryMode::NoMerges, HistoryMode::MergesOnly] {
            let plain = log_page_from_walk_filtered(&w, limit, None, None, mode);
            let (commits, has_more) = log_page_from_paged_walk_state(&w, limit, None, None, mode);
            assert_eq!(ids(&commits), ids(&plain.commits));
            assert_eq!(has_more, plain.next_cursor.is_some());
        }
    }
}

#[test]
fn walk_plan_follows_mode_and_repository_shape() {
    assert_eq!(history_walk_plan(HistoryMode::FullReachable, 0, false, true, false), HistoryWalkPlan::Empty);
    assert_eq!(history_walk_plan(HistoryMode::AllBranches, 10, false, false, false), HistoryWalkPlan::AllBranches);
    assert_eq!(
        history_walk_plan(HistoryMode::FirstParent, 10, true, true, false),
        HistoryWalkPlan::FirstParentFromResume
    );
    assert_eq!(
        history_walk_plan(HistoryMode::FirstParent, 10, false, true, true),
        HistoryWalkPlan::FirstParentFromHead
    );
    assert_eq!(history_walk_plan(HistoryMode::FirstParent, 10, false, false, false), HistoryWalkPlan::Empty);
    assert_eq!(history_walk_plan(HistoryMode::NoMerges, 10, false, false, false), HistoryWalkPlan::Empty);
    assert_eq!(history_walk_plan(HistoryMode::NoMerges, 10, false, true, true), HistoryWalkPlan::FullWalk);
    assert_eq!(history_walk_plan(HistoryMode::MergesOnly, 10, true, true, false), HistoryWalkPlan::PagedWalk);
}
