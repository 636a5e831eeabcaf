use gitcomet::file_browser::{
    compute_file_browser_visible_rows, file_browser_visible_mask, FileBrowserVisibleRow, FileEntry,
    FileEntryKind,
};
use gitcomet::file_search::DiffSearchOptions;
use gitcomet::model::Loadable;

fn entry(path: &str, depth: usize, kind: FileEntryKind) -> FileEntry {
    FileEntry {
        path: path.to_string(),
        name: path.rsplit('/').next().unwrap().to_string(),
        depth,
        kind,
    }
}

fn tree() -> Vec<FileEntry> {
    vec![
        entry("src", 0, FileEntryKind::Directory),
        entry("src/a.rs", 1, FileEntryKind::File),
        entry("src/util", 1, FileEntryKind::Directory),
        entry("src/util/x.rs", 2, FileEntryKind::File),
        entry("README.md", 0, FileEntryKind::File),
    ]
}

fn dirs(v: &[&str]) -> Vec<String> {
    v.iter().map(|s| s.to_string()).collect()
}

fn options() -> DiffSearchOptions {
    DiffSearchOptions { match_case: false, whole_word: false, regex: false }
}

fn row(entry_index: usize, depth: usize, is_directory: bool, is_expanded: bool) -> FileBrowserVisibleRow {
    FileBrowserVisibleRow { entry_index, depth, is_directory, is_expanded }
}

#[test]
fn collapsed_directories_hide_their_subtrees() {
    let entries = tree();
    assert_eq!(file_browser_visible_mask(&entries, &dirs(&[])), vec![true, false, false, false, true]);
    assert_eq!(
        file_browser_visible_mask(&entries, &dirs(&["src"])),
        vec![true, true, true, false, true]
    );
    assert_eq!(
        file_browser_visible_mask(&entries, &dirs(&["src", "src/util"])),
        vec![true; 5]
    );
    // An expanded directory inside a collapsed one stays hidden.
    assert_eq!(
        file_browser_visible_mask(&entries, &dirs(&["src/util"])),
        vec![true, false, false, false, true]
    );
}

#[test]
fn tree_rows_carry_depth_and_chevron_state() {
    let rows = compute_file_browser_visible_rows(&Loadable::Ready(tree()), &dirs(&["src"]), "", options());
    assert_eq!(
        rows,
        vec![row(0, 0, true, true), row(1, 1, false, false), row(2, 1, true, false), row(4, 0, false, false)]
    );
    assert!(compute_file_browser_visible_rows(&Loadable::Loading, &dirs(&["src"]), "", options()).is_empty());
    assert!(compute_file_browser_visible_rows(&Loadable::NotLoaded, &dirs(&[]), "x", options()).is_empty());
}

#[test]
fn search_shows_matches_with_their_directories_unfolded() {
    let rows = compute_file_browser_visible_rows(&Loadable::Ready(tree()), &dirs(&[]), "X.RS", options());
    assert_eq!(rows, vec![row(0, 0, true, true), row(2, 1, true, true), row(3, 2, false, false)]);

    let rows = compute_file_browser_visible_rows(&Loadable::Ready(tree()), &dirs(&[]), "readme\n  \n", options());
    assert_eq!(rows, vec![row(4, 0, false, false)]);

    // A blank query is no search: the tree shows as collapsed.
    let rows = compute_file_browser_visible_rows(&Loadable::Ready(tree()), &dirs(&[]), "  \n ", options());
    assert_eq!(rows, vec![row(0, 0, true, false), row(4, 0, false, false)]);
}
