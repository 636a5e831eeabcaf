use gitcomet::log::{
    apply_first_parent_resume_hint, commit_stats_line_count, commit_stats_looks_binary, log_page_from_walk,
    recent_commit_messages, commit_file_line_stats, LineStatsPlan, RecentCommitMessage,
    paginate_commits, recent_commit_message_limits, CursorGate, LogCursor, LogPage,
    NextCommitIdCache, RepeatedAuthorCache,
};
use gitcomet::model::Commit;
use std::sync::Arc;

fn commit(id: &str, parents: &[&str]) -> Commit {
    Commit {
        id: id.to_string(),
        parent_ids: parents.iter().map(|p| p.to_string()).collect(),
        summary: "msg".to_string(),
        author: "you".to_string(),
    }
}

#[test]
fn recent_commit_message_limits_cap_large_requests_without_panicking() {
    assert_eq!(recent_commit_message_limits(0), None);
    assert_eq!(recent_commit_message_limits(1), Some((1, 5)));
    assert_eq!(recent_commit_message_limits(10), Some((10, 50)));
    assert_eq!(recent_commit_message_limits(20), Some((20, 100)));
    assert_eq!(recent_commit_message_limits(21), Some((21, 100)));
    assert_eq!(recent_commit_message_limits(100), Some((100, 100)));
    assert_eq!(recent_commit_message_limits(101), Some((100, 100)));
    assert_eq!(recent_commit_message_limits(usize::MAX), Some((100, 100)));
}

#[test]
fn repeated_author_cache_reuses_arc_for_identical_names() {
    let mut cache = RepeatedAuthorCache::default();

    let first = cache.intern(b"Bench");
    let second = cache.intern(b"Bench");
    let third = cache.intern(b"Other");

    assert!(Arc::ptr_eq(&first, &second));
    assert!(!Arc::ptr_eq(&second, &third));
}

#[test]
fn repeated_author_cache_decodes_invalid_utf8_lossily() {
    let mut cache = RepeatedAuthorCache::new();
    let name = cache.intern(b"Jos\xe9");
    assert_eq!(name.as_str(), "Jos\u{fffd}");
}

#[test]
fn cursor_gate_skips_until_after_last_seen() {
    let cursor = LogCursor {
        last_seen: "c2".to_string(),
        resume_from: None,
        resume_token: None,
    };
    let mut gate = CursorGate::new(Some(&cursor));

    assert!(gate.should_skip("c1"));
    assert!(gate.should_skip("c2"));
    assert!(!gate.should_skip("c3"));
    assert!(!gate.should_skip("c4"));
}

#[test]
fn cursor_gate_without_cursor_skips_nothing() {
    let mut gate = CursorGate::new(None);
    assert!(!gate.should_skip_hex("c1"));
}

#[test]
fn apply_first_parent_resume_hint_uses_first_parent_of_last_commit() {
    let mut page = LogPage {
        commits: vec![commit("c1", &["p0"]), commit("c2", &["p1", "p2"])],
        next_cursor: Some(LogCursor {
            last_seen: "c2".to_string(),
            resume_from: None,
            resume_token: None,
        }),
    };

    apply_first_parent_resume_hint(&mut page);

    assert_eq!(
        page.next_cursor
            .as_ref()
            .and_then(|cursor| cursor.resume_from.clone()),
        Some("p1".to_string())
    );
}

#[test]
fn apply_first_parent_resume_hint_clears_stale_resume_hint_when_no_parent_exists() {
    let mut page = LogPage {
        commits: vec![commit("c1", &[])],
        next_cursor: Some(LogCursor {
            last_seen: "c1".to_string(),
            resume_from: Some("stale".to_string()),
            resume_token: None,
        }),
    };

    apply_first_parent_resume_hint(&mut page);

    assert_eq!(
        page.next_cursor.as_ref().expect("next cursor").resume_from,
        None
    );
}

#[test]
fn pages_continue_where_the_previous_page_stopped() {
    let commits: Vec<Commit> = ["a", "b", "c", "d", "e"]
        .iter()
        .map(|id| commit(id, &[]))
        .collect();
    let first = paginate_commits(&commits, 2, None);
    let ids: Vec<&str> = first.commits.iter().map(|c| c.id.as_str()).collect();
    assert_eq!(ids, vec!["a", "b"]);
    let cursor = first.next_cursor.expect("more history");
    assert_eq!(cursor.last_seen, "b");
    let second = paginate_commits(&commits, 2, Some(&cursor));
    let ids: Vec<&str> = second.commits.iter().map(|c| c.id.as_str()).collect();
    assert_eq!(ids, vec!["c", "d"]);
    let third = paginate_commits(&commits, 2, second.next_cursor.as_ref());
    let ids: Vec<&str> = third.commits.iter().map(|c| c.id.as_str()).collect();
    assert_eq!(ids, vec!["e"]);
    assert!(third.next_cursor.is_none());
    assert!(paginate_commits(&commits, 0, None).commits.is_empty());
}

#[test]
fn commit_stats_detect_binary_and_count_lines() {
    assert!(!commit_stats_looks_binary(b"text\n"));
    assert!(commit_stats_looks_binary(b"a\0b"));
    let mut late_nul = vec![b'a'; 8000];
    late_nul.push(0);
    assert!(!commit_stats_looks_binary(&late_nul));
    assert_eq!(commit_stats_line_count(b""), 0);
    assert_eq!(commit_stats_line_count(b"one\ntwo\n"), 2);
    assert_eq!(commit_stats_line_count(b"one\ntwo"), 2);
    assert_eq!(commit_stats_line_count(b"\n"), 1);
}

#[test]
fn next_commit_id_cache_reuses_commit_id_for_matching_first_parent() {
    let mut cache = NextCommitIdCache::default();

    let parent = Arc::new("1111111111111111111111111111111111111111".to_string());
    let oid = [0x11u8; 20];
    cache.remember(&oid, &parent);

    let reused = cache.reuse_or_new(&oid, || Arc::new("other".to_string()));
    let other_oid = [0x22u8; 20];
    let fresh = cache.reuse_or_new(&other_oid, || Arc::new("fresh".to_string()));

    assert!(Arc::ptr_eq(&parent, &reused));
    assert_eq!(fresh.as_str(), "fresh");

    cache.clear();
    let after_root = cache.reuse_or_new(&oid, || Arc::new("new".to_string()));
    assert_eq!(after_root.as_str(), "new");
}

fn authored(id: &str, author: &str) -> Commit {
    Commit { id: id.to_string(), parent_ids: vec![], summary: "msg".to_string(), author: author.to_string() }
}

fn ids(page: &LogPage) -> Vec<&str> {
    page.commits.iter().map(|c| c.id.as_str()).collect()
}

#[test]
fn walk_pages_skip_past_the_cursor_and_filter_by_author() {
    let walk = vec![
        authored("a", "Ada Lovelace"),
        authored("b", "Émile Zola"),
        authored("c", "ada"),
        authored("d", "Grace"),
        authored("e", "ÉMILE"),
        authored("f", "Ada"),
    ];
    let page = log_page_from_walk(&walk, 2, None, Some("ADA"));
    assert_eq!(ids(&page), vec!["a", "c"]);
    assert_eq!(page.next_cursor.as_ref().map(|c| c.last_seen.as_str()), Some("c"));

    let cursor = page.next_cursor.clone().unwrap();
    let next = log_page_from_walk(&walk, 2, Some(&cursor), Some("ADA"));
    assert_eq!(ids(&next), vec!["f"]);
    assert!(next.next_cursor.is_none());

    // Lowercasing is Unicode-aware: É matches é.
    let emile = log_page_from_walk(&walk, 10, None, Some("émile"));
    assert_eq!(ids(&emile), vec!["b", "e"]);

    let all = log_page_from_walk(&walk, 3, None, None);
    assert_eq!(ids(&all), vec!["a", "b", "c"]);
    assert_eq!(all.next_cursor.as_ref().map(|c| c.last_seen.as_str()), Some("c"));

    assert!(log_page_from_walk(&walk, 0, None, Some("ada")).commits.is_empty());
    let unknown = LogCursor { last_seen: "zzz".to_string(), resume_from: None, resume_token: None };
    assert!(log_page_from_walk(&walk, 5, Some(&unknown), None).commits.is_empty());
}

fn scanned(id: &str, summary: &str, message: &str) -> (Commit, String) {
    (
        Commit { id: id.to_string(), parent_ids: vec![], summary: summary.to_string(), author: "a".to_string() },
        message.to_string(),
    )
}

fn recent(id: &str, summary: &str, message: &str) -> RecentCommitMessage {
    RecentCommitMessage { id: id.to_string(), summary: summary.to_string(), message: message.to_string() }
}

#[test]
fn recent_messages_skip_blank_and_repeated_messages() {
    let history = vec![
        scanned("1", "fix", "fix: typo\n\nDetails.\n\n"),
        scanned("2", "", "   \n"),
        scanned("3", "fix", "fix: typo\n\nDetails."),
        scanned("4", "feat", "feat: add\n"),
        scanned("5", "docs", "docs\n"),
    ];
    assert_eq!(
        recent_commit_messages(10, &history),
        vec![
            recent("1", "fix", "fix: typo\n\nDetails."),
            recent("4", "feat", "feat: add"),
            recent("5", "docs", "docs"),
        ]
    );
    assert_eq!(
        recent_commit_messages(2, &history),
        vec![recent("1", "fix", "fix: typo\n\nDetails."), recent("4", "feat", "feat: add")]
    );
    assert!(recent_commit_messages(0, &history).is_empty());
    assert!(recent_commit_messages(5, &Vec::new()).is_empty());
}

#[test]
fn line_stats_count_one_sided_changes_and_leave_the_rest_to_a_diff() {
    let text: &[u8] = b"a\nb\nc";
    let empty: &[u8] = b"";
    let binary: &[u8] = b"ab\0cd";
    assert_eq!(
        commit_file_line_stats(Some(empty), Some(text)),
        LineStatsPlan::Counted { added: 3, removed: 0 }
    );
    assert_eq!(
        commit_file_line_stats(Some(b"x\ny\n"), Some(empty)),
        LineStatsPlan::Counted { added: 0, removed: 2 }
    );
    assert_eq!(commit_file_line_stats(Some(text), Some(b"a\n")), LineStatsPlan::Diff);
    assert_eq!(commit_file_line_stats(Some(binary), Some(text)), LineStatsPlan::Unknown);
    assert_eq!(commit_file_line_stats(None, Some(text)), LineStatsPlan::Unknown);
    let huge = vec![b'a'; 4 * 1024 * 1024 + 1];
    assert_eq!(commit_file_line_stats(Some(empty), Some(&huge)), LineStatsPlan::Unknown);
}
