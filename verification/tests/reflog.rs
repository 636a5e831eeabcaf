use gitcomet::model::RepoId;
use gitcomet::popover::{PopoverKind, ResetMode};
use gitcomet::reflog::{filtered_entry_indices, reflog_footer, reflog_match_text, selected_entry, ReflogEntry, ReflogFooter};

fn entry(index: usize, new_id: &str, message: &str) -> ReflogEntry {
    ReflogEntry {
        index,
        new_id: new_id.into(),
        message: message.into(),
        selector: format!("HEAD@{{{index}}}"),
    }
}

fn entries() -> Vec<ReflogEntry> {
    vec![
        entry(0, "aaaaaaaaaaaa", "commit: initial"),
        entry(1, "bbbbbbbbbbbb", "checkout: moving to feature"),
        entry(2, "cccccccccccc", "reset: moving to HEAD@{1}"),
    ]
}

#[test]
fn empty_query_returns_every_entry_in_order() {
    let indices = filtered_entry_indices(&entries(), "");
    assert_eq!(indices, vec![0, 1, 2]);
    assert_eq!(filtered_entry_indices(&entries(), "   "), vec![0, 1, 2]);
}

#[test]
fn query_filters_by_selector_message_and_short_sha_case_insensitively() {
    assert_eq!(filtered_entry_indices(&entries(), "head@{2}"), vec![2]);
    assert_eq!(filtered_entry_indices(&entries(), "CHECKOUT"), vec![1]);
    assert_eq!(filtered_entry_indices(&entries(), "bbbbbbbb"), vec![1]);
    // A prefix of the selector matches too.
    assert_eq!(filtered_entry_indices(&entries(), "head"), vec![0, 1, 2]);
}

#[test]
fn query_with_no_match_returns_empty() {
    assert!(filtered_entry_indices(&entries(), "zzz").is_empty());
}

#[test]
fn match_text_combines_selector_sha_and_message() {
    let text = reflog_match_text(&entry(4, "deadbeefcafe", "merge: branch x"));
    assert_eq!(text, "HEAD@{4} deadbeef merge: branch x");
}

#[test]
fn selection_counts_rows_of_the_filtered_list() {
    let all = entries();
    assert_eq!(selected_entry(&all, "", Some(1)), Some(1));
    assert_eq!(selected_entry(&all, "moving", Some(1)), Some(2));
    assert_eq!(selected_entry(&all, "moving", Some(2)), None);
    assert_eq!(selected_entry(&all, "", None), None);
}

#[test]
fn footer_summarizes_the_selection_and_targets_its_commit() {
    let all = entries();
    let footer = reflog_footer(&all, "checkout", Some(0));
    assert_eq!(
        footer,
        ReflogFooter {
            summary: "HEAD@{1} · commit bbbbbbbb".to_string(),
            reset_target: Some("bbbbbbbbbbbb".to_string()),
        }
    );
    assert_eq!(
        footer.reset_prompt(RepoId(3), ResetMode::Hard),
        Some(PopoverKind::ResetPrompt { repo_id: RepoId(3), target: "bbbbbbbbbbbb".to_string(), mode: ResetMode::Hard })
    );

    let unselected = reflog_footer(&all, "", None);
    assert_eq!(unselected.summary, "Select an entry with ↑/↓, then reset HEAD to it.");
    assert_eq!(unselected.reset_target, None);
    assert_eq!(unselected.reset_prompt(RepoId(3), ResetMode::Soft), None);

    let empty = reflog_footer(&Vec::new(), "", Some(0));
    assert_eq!(empty.summary, "No entries yet.");
    assert_eq!(empty.reset_target, None);
}
