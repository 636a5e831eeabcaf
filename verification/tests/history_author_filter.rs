use gitcomet::context_menu::history_author_filter::{collect_author_suggestions, model, model_for};
use gitcomet::context_menu::{ContextMenuAction, ContextMenuItem, ContextMenuModel};
use gitcomet::model::{AppState, Commit, RepoId, RepoState};
use gitcomet::popover::PopoverHost;

fn entry_labels_and_icons(model: &ContextMenuModel) -> Vec<(String, Option<String>)> {
    model
        .items
        .iter()
        .filter_map(|item| match item {
            ContextMenuItem::Entry { label, icon, .. } => {
                Some((label.to_string(), icon.as_ref().map(|i| i.to_string())))
            }
            _ => None,
        })
        .collect()
}

#[test]
fn all_authors_entry_is_checked_when_no_filter() {
    let model = model_for(RepoId(11), None, vec!["Alice".into(), "Bob".into()]);

    let entries = entry_labels_and_icons(&model);
    assert_eq!(entries[0].0, "All authors");
    assert_eq!(entries[0].1, Some("icons/check.svg".into()));
    // Suggestions follow, none checked.
    assert_eq!(entries[1].0, "Alice");
    assert_eq!(entries[1].1, None);
    assert_eq!(entries[2].0, "Bob");
}

#[test]
fn active_filter_is_checked_and_others_not() {
    let model = model_for(
        RepoId(11),
        Some("Alice".into()),
        vec!["Alice".into(), "Bob".into()],
    );

    let entries = entry_labels_and_icons(&model);
    assert_eq!(entries[0].1, None); // "All authors" unchecked
    assert_eq!(entries[1].0, "Alice");
    assert_eq!(entries[1].1, Some("icons/check.svg".into()));
    assert_eq!(entries[2].0, "Bob");
    assert_eq!(entries[2].1, None);
}

#[test]
fn matching_author_filter_is_case_insensitive() {
    let model = model_for(
        RepoId(11),
        Some("alice".into()),
        vec!["Alice".into(), "Bob".into()],
    );

    let entries = entry_labels_and_icons(&model);
    assert_eq!(entries[1].1, Some("icons/check.svg".into()));
}

fn commit(author: &str) -> Commit {
    Commit {
        id: "deadbeefdeadbeef".into(),
        parent_ids: Vec::new(),
        summary: "msg".into(),
        author: author.into(),
    }
}

#[test]
fn author_suggestions_are_deduplicated_case_insensitively() {
    let authors = collect_author_suggestions(&vec![
        commit("Alice"),
        commit("alice"),
        commit("  Bob  "),
        commit("Bob"),
        commit(""),
    ]);

    assert_eq!(authors, vec!["Alice", "Bob"]);
}

#[test]
fn author_suggestions_sort_by_lowercase_name_and_keep_first_spelling() {
    let authors = collect_author_suggestions(&vec![
        commit("zed"),
        commit("Émile"),
        commit("bob"),
        commit("Alice"),
        commit("ALICE"),
    ]);
    assert_eq!(authors, vec!["Alice", "bob", "zed", "Émile"]);
}

#[test]
fn menu_structure_and_actions() {
    let model = model_for(RepoId(5), None, vec![]);
    assert_eq!(model.items.len(), 3);
    assert_eq!(model.items[0], ContextMenuItem::Header("Author filter".to_string()));
    let model = model_for(RepoId(5), None, vec!["Ann".into()]);
    assert_eq!(model.items.len(), 5);
    assert_eq!(model.items[3], ContextMenuItem::Separator);
    assert!(matches!(
        &model.items[4],
        ContextMenuItem::Entry { action, .. }
            if **action == ContextMenuAction::SetHistoryAuthorFilter { repo_id: RepoId(5), author: Some("Ann".to_string()) }
    ));
}

#[test]
fn host_menu_uses_loaded_history_and_current_filter() {
    let mut repo = RepoState::new_opening(RepoId(2), "/w".to_string());
    repo.log_commits = Some(vec![commit("bob"), commit("Ann")]);
    repo.history_author_filter = Some("ANN".to_string());
    let mut state = AppState::new();
    state.repos.push(repo);
    let host = PopoverHost { state, popover: None };
    let entries = entry_labels_and_icons(&model(&host, RepoId(2)));
    assert_eq!(
        entries,
        vec![
            ("All authors".to_string(), None),
            ("Ann".to_string(), Some("icons/check.svg".to_string())),
            ("bob".to_string(), None),
        ]
    );
    assert!(model(&host, RepoId(9)).items.is_empty());
}
