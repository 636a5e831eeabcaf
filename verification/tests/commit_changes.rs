use gitcomet::commit_changes::{
    commit_file_change_from_diff, commit_file_changes, range_base_has_tree, tree_diff_file_changes, ChangeKind,
    CommitFileChange, TreeChange,
};

fn add(path: &str, id: &str) -> TreeChange {
    TreeChange::Addition { location: path.to_string(), is_tree: false, is_commit: false, id: id.to_string() }
}

#[test]
fn entries_map_to_change_kinds_and_directories_are_left_out() {
    assert_eq!(
        commit_file_change_from_diff(&add("a.rs", "n1"), true),
        Some(CommitFileChange {
            path: "a.rs".to_string(),
            kind: ChangeKind::Added,
            is_submodule: false,
            stats_from: Some((None, Some("n1".to_string()))),
        })
    );
    let dir = TreeChange::Deletion { location: "src".to_string(), is_tree: true, is_commit: false, id: "t".to_string() };
    assert_eq!(commit_file_change_from_diff(&dir, true), None);
    let copy = TreeChange::Rewrite {
        location: "b.rs".to_string(),
        source_is_tree: false,
        source_is_commit: false,
        is_tree: false,
        is_commit: false,
        copy: true,
        source_id: "o".to_string(),
        id: "n".to_string(),
    };
    assert_eq!(commit_file_change_from_diff(&copy, false).unwrap().kind, ChangeKind::Added);
    let rename = TreeChange::Rewrite {
        location: "c.rs".to_string(),
        source_is_tree: false,
        source_is_commit: false,
        is_tree: false,
        is_commit: false,
        copy: false,
        source_id: "o".to_string(),
        id: "n".to_string(),
    };
    let renamed = commit_file_change_from_diff(&rename, true).unwrap();
    assert_eq!(renamed.kind, ChangeKind::Renamed);
    assert_eq!(renamed.stats_from, Some((Some("o".to_string()), Some("n".to_string()))));
    let submodule = TreeChange::Modification {
        location: "vendor/lib".to_string(),
        previous_is_tree: false,
        previous_is_commit: true,
        is_tree: false,
        is_commit: true,
        previous_id: "p".to_string(),
        id: "q".to_string(),
    };
    let sub = commit_file_change_from_diff(&submodule, true).unwrap();
    assert!(sub.is_submodule);
    assert_eq!(sub.kind, ChangeKind::Modified);
    assert_eq!(sub.stats_from, None);
}

#[test]
fn large_diffs_skip_line_stats_and_merges_list_nothing() {
    let small = vec![add("a", "1"), add("b", "2")];
    let listed = tree_diff_file_changes(&small);
    assert_eq!(listed.len(), 2);
    assert!(listed.iter().all(|c| c.stats_from.is_some()));
    let big: Vec<TreeChange> = (0..401).map(|i| add(&format!("f{i}"), "x")).collect();
    let listed = tree_diff_file_changes(&big);
    assert_eq!(listed.len(), 401);
    assert!(listed.iter().all(|c| c.stats_from.is_none()));
    assert!(commit_file_changes(2, &small).is_empty());
    assert_eq!(commit_file_changes(1, &small), tree_diff_file_changes(&small));
    assert!(!range_base_has_tree("4b825dc642cb6eb9a060e54bf8d69288fbee4904"));
    assert!(range_base_has_tree("abc"));
}
