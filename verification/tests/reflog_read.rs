use gitcomet::reflog::ReflogEntry;
use gitcomet::reflog_read::{reflog_head_entries, stash_reflog_entries, stash_reflog_tips, ReflogLine, StashEntry};

fn line(id: &str, message: &str) -> ReflogLine {
    ReflogLine { new_id: id.to_string(), message: message.to_string() }
}

const NULL: &str = "0000000000000000000000000000000000000000";

#[test]
fn head_entries_are_numbered_newest_first_up_to_the_limit() {
    let lines = vec![line("c3", "commit: three"), line("b2", "checkout: moving"), line("a1", "commit (initial)")];
    let entries = reflog_head_entries(&lines, 2);
    assert_eq!(
        entries,
        vec![
            ReflogEntry { index: 0, new_id: "c3".into(), message: "commit: three".into(), selector: "HEAD@{0}".into() },
            ReflogEntry { index: 1, new_id: "b2".into(), message: "checkout: moving".into(), selector: "HEAD@{1}".into() },
        ]
    );
    assert_eq!(reflog_head_entries(&lines, 10).len(), 3);
    assert_eq!(reflog_head_entries(&lines, 10)[2].selector, "HEAD@{2}");
    assert!(reflog_head_entries(&lines, 0).is_empty());
}

#[test]
fn stash_entries_skip_null_lines_but_keep_their_positions() {
    let lines = vec![line("aaa", "WIP on main"), line(NULL, "dropped"), line("bbb", "On main: try")];
    assert_eq!(
        stash_reflog_entries(&lines),
        vec![
            StashEntry { index: 0, id: "aaa".into(), message: "WIP on main".into() },
            StashEntry { index: 2, id: "bbb".into(), message: "On main: try".into() },
        ]
    );
}

#[test]
fn stash_tips_are_distinct_and_never_null() {
    let lines = vec![line("aaa", "x"), line(NULL, "y"), line("bbb", "z"), line("aaa", "again")];
    assert_eq!(stash_reflog_tips(&lines, 50), vec!["aaa".to_string(), "bbb".to_string()]);
    assert_eq!(stash_reflog_tips(&lines, 1), vec!["aaa".to_string()]);
    assert!(stash_reflog_tips(&lines, 0).is_empty());
    assert!(stash_reflog_tips(&vec![], 5).is_empty());
}
