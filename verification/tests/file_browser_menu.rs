use gitcomet::context_menu::file_browser_file::{diff_target_for_source, model};
use gitcomet::context_menu::{ContextMenuAction, ContextMenuItem, ContextMenuModel};
use gitcomet::model::{AppState, DiffArea, DiffTarget, FileSource, RepoId, RepoState};
use gitcomet::permalink::Remote;
use gitcomet::popover::PopoverHost;

fn host(source: FileSource) -> PopoverHost {
    let mut repo = RepoState::new_opening(RepoId(1), "/repo".to_string());
    repo.file_browser_source = source;
    repo.head_branch = Some("main".to_string());
    repo.remotes = Some(vec![Remote {
        name: "origin".to_string(),
        url: Some("https://github.com/org/repo.git".to_string()),
    }]);
    let mut state = AppState::new();
    state.repos.push(repo);
    PopoverHost { state, popover: None }
}

fn labels(model: &ContextMenuModel) -> Vec<String> {
    model
        .items
        .iter()
        .map(|item| match item {
            ContextMenuItem::Header(t) => format!("# {t}"),
            ContextMenuItem::Label(t) => format!("~ {t}"),
            ContextMenuItem::Description(t) => format!("? {t}"),
            ContextMenuItem::Separator => "-".to_string(),
            ContextMenuItem::Entry { label, .. } => label.clone(),
        })
        .collect()
}

fn action(model: &ContextMenuModel, label: &str) -> ContextMenuAction {
    model
        .items
        .iter()
        .find_map(|item| match item {
            ContextMenuItem::Entry { label: l, action, .. } if l == label => Some((**action).clone()),
            _ => None,
        })
        .expect("entry")
}

#[test]
fn working_directory_files_get_disk_actions_and_a_branch_permalink() {
    let menu = model(&host(FileSource::WorkingDirectory), RepoId(1), "src/main.rs");
    assert_eq!(
        labels(&menu),
        vec![
            "# main.rs",
            "~ src/main.rs",
            "-",
            "Open",
            "Open diff",
            "Open file",
            "Open file location",
            "File history",
            "Copy file permalink",
            "-",
            "Copy path",
        ]
    );
    assert_eq!(
        action(&menu, "Copy file permalink"),
        ContextMenuAction::CopyText {
            text: "https://github.com/org/repo/blob/main/src/main.rs".to_string()
        }
    );
    assert_eq!(
        action(&menu, "Copy path"),
        ContextMenuAction::CopyText { text: "/repo/src/main.rs".to_string() }
    );
}

#[test]
fn commit_sources_open_the_commit_diff_and_link_the_commit() {
    let menu = model(&host(FileSource::Commit("abc".to_string())), RepoId(1), "a/b.txt");
    assert_eq!(
        labels(&menu),
        vec![
            "# b.txt",
            "~ a/b.txt",
            "-",
            "Open",
            "Open diff",
            "File history",
            "Copy file permalink",
            "-",
            "Copy path",
        ]
    );
    assert_eq!(
        action(&menu, "Open diff"),
        ContextMenuAction::SelectDiff {
            repo_id: RepoId(1),
            target: DiffTarget::Commit { commit_id: "abc".to_string(), path: Some("a/b.txt".to_string()) }
        }
    );
}

#[test]
fn branch_sources_have_no_diff_and_escaping_paths_copy_as_given() {
    let menu = model(&host(FileSource::Branch("dev".to_string())), RepoId(1), "../x/..");
    let l = labels(&menu);
    assert_eq!(l[0], "# \"../x/..\"");
    assert!(!l.iter().any(|x| x == "Open diff"));
    assert_eq!(
        action(&menu, "Copy path"),
        ContextMenuAction::CopyText { text: "../x/..".to_string() }
    );
    assert_eq!(diff_target_for_source(&FileSource::Branch("dev".into()), "a"), None);
    assert_eq!(
        diff_target_for_source(&FileSource::WorkingDirectory, "a"),
        Some(DiffTarget::WorkingTree { path: "a".to_string(), area: DiffArea::Unstaged })
    );
}

#[test]
fn detached_working_directory_has_no_permalink() {
    let mut h = host(FileSource::WorkingDirectory);
    h.state.repos[0].head_branch = Some("HEAD".to_string());
    let menu = model(&h, RepoId(1), "dir/./file.rs/.");
    let l = labels(&menu);
    assert_eq!(l[0], "# file.rs");
    assert!(!l.iter().any(|x| x == "Copy file permalink"));
}
