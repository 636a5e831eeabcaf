use gitcomet::git_output::{
    follow_log_target, follow_status_line_exec, interpret_name_status, rename_destination_in_diff_tree,
    NameStatusTarget,
};

const FOLLOW_LOG: &str = "\u{1e}abc123\n\nM\tsrc/new.rs\n\u{1e}def456\n\nR100\tsrc/old.rs\tsrc/new.rs\n\u{1e}777\n\nA\tsrc/old.rs\n\u{1e}aaa\n\nD\tsrc/gone.rs\n\u{1e}bbb\n";

fn path(p: &str) -> NameStatusTarget {
    NameStatusTarget::Path(p.to_string())
}

#[test]
fn follow_log_rows_name_the_file_in_each_commit() {
    assert_eq!(follow_log_target(FOLLOW_LOG, "abc123"), path("src/new.rs"));
    assert_eq!(follow_log_target(FOLLOW_LOG, "def456"), path("src/new.rs"));
    assert_eq!(follow_log_target(FOLLOW_LOG, "777"), path("src/old.rs"));
    assert_eq!(
        follow_log_target(FOLLOW_LOG, "aaa"),
        NameStatusTarget::RenamedAway("src/gone.rs".to_string())
    );
    // A record with no row, and a commit the log does not list.
    assert_eq!(follow_log_target(FOLLOW_LOG, "bbb"), NameStatusTarget::Unknown);
    assert_eq!(follow_log_target(FOLLOW_LOG, "999"), NameStatusTarget::Unknown);
    assert_eq!(follow_status_line_exec(FOLLOW_LOG, "def456"), Some("R100\tsrc/old.rs\tsrc/new.rs".to_string()));
    assert_eq!(follow_status_line_exec("", "abc"), None);
}

#[test]
fn name_status_rows_are_read_by_their_status_letter() {
    assert_eq!(interpret_name_status("C75\ta.rs\tb.rs"), path("b.rs"));
    assert_eq!(interpret_name_status("T\tlink"), path("link"));
    assert_eq!(interpret_name_status("R100\tonly-one.rs"), NameStatusTarget::Unknown);
    assert_eq!(interpret_name_status("D"), NameStatusTarget::Unknown);
    assert_eq!(interpret_name_status("X\tsomething"), NameStatusTarget::Unknown);
    assert_eq!(interpret_name_status(""), NameStatusTarget::Unknown);
}

#[test]
fn diff_tree_rename_rows_give_the_destination() {
    let out = "M\tother.txt\nR087\tsrc/old.txt\tlib/new.txt\n";
    assert_eq!(rename_destination_in_diff_tree(out, "src/old.txt"), Some("lib/new.txt".to_string()));
    assert_eq!(rename_destination_in_diff_tree(out, "other.txt"), None);
    assert_eq!(rename_destination_in_diff_tree("C100\ta\tb\r\nR100\ta\tc\r\n", "a"), Some("b".to_string()));
    assert_eq!(rename_destination_in_diff_tree("", "a"), None);
}
