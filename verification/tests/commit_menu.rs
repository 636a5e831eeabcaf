use gitcomet::context_menu::commit::{model, multi_cherry_pick_plan, CommitMenuFacts};
use gitcomet::context_menu::{
    ContextMenuAction, ContextMenuItem, ContextMenuModel, InteractiveRebaseAction,
    InteractiveRebaseEntry, MenuInputs,
};
use gitcomet::model::{AppState, Branch, Commit, ComparisonMark, RepoId, RepoState};
use gitcomet::permalink::Remote;
use gitcomet::popover::{PopoverHost, PopoverKind, ResetMode};

const SHA: &str = "deadbeefcafe1234";

fn host() -> PopoverHost {
    let mut repo = RepoState::new_opening(RepoId(1), "/w".to_string());
    repo.log_commits = Some(vec![Commit {
        id: SHA.to_string(),
        parent_ids: vec![],
        summary: "Fix".to_string(),
        author: "Ann".to_string(),
    }]);
    repo.branches = Some(vec![
        Branch { name: "main".to_string(), target: SHA.to_string(), upstream: None },
        Branch { name: "dev".to_string(), target: "0000".to_string(), upstream: None },
    ]);
    repo.head_branch = Some("dev".to_string());
    repo.remotes = Some(vec![Remote {
        name: "origin".to_string(),
        url: Some("git@github.com:org/repo.git".to_string()),
    }]);
    repo.comparison_mark = Some(ComparisonMark {
        commit_id: "abc12345ffff".to_string(),
        label: "abc12345".to_string(),
    });
    let mut state = AppState::new();
    state.active_repo = Some(RepoId(1));
    state.repos.push(repo);
    PopoverHost { state, popover: None }
}

fn facts() -> CommitMenuFacts {
    CommitMenuFacts {
        head_commit_id: Some("ffff0000".to_string()),
        history_rewrite_busy: false,
        squash_commit_count: None,
        cherry_pick_plan: None,
        children_count: Some(2),
    }
}

fn labels(model: &ContextMenuModel) -> Vec<String> {
    model
        .items
        .iter()
        .map(|item| match item {
            ContextMenuItem::Header(t) => format!("# {t}"),
            ContextMenuItem::Label(t) => format!("~ {t}"),
            ContextMenuItem::Description(t) => format!("? {t}"),
            ContextMenuItem::Separator => "-".to_string(),
            ContextMenuItem::Entry { label, .. } => label.clone(),
        })
        .collect()
}

#[test]
fn commit_menu_lists_view_compare_and_history_actions() {
    let menu = model(&host(), RepoId(1), SHA, &facts());
    assert_eq!(
        labels(&menu),
        vec![
            "# main",
            "~ Ann — Fix",
            "-",
            "Open diff",
            "Browse repository at this point",
            "Copy commit permalink",
            "Mark deadbeef for comparison",
            "Compare with working tree",
            "Compare with abc12345",
            "Clear comparison mark",
            "Export patch…",
            "Add tag…",
            "Checkout (detached)",
            "Cherry-pick",
            "Revert",
            "Rebase dev onto main",
            "Interactive rebase 2 children of deadbeef",
            "-",
            "Reset (--soft) to here",
            "Reset (--mixed) to here",
            "Reset (--hard) to here",
        ]
    );
    match &menu.items[5] {
        ContextMenuItem::Entry { action, .. } => assert_eq!(
            **action,
            ContextMenuAction::CopyText {
                text: "https://github.com/org/repo/commit/deadbeefcafe1234".to_string()
            }
        ),
        other => panic!("unexpected {other:?}"),
    }
    match &menu.items[15] {
        ContextMenuItem::Entry { action, shortcut, .. } => {
            assert_eq!(shortcut.as_deref(), Some("B"));
            assert_eq!(
                **action,
                ContextMenuAction::OpenPopover {
                    kind: PopoverKind::RebaseOntoConfirm {
                        repo_id: RepoId(1),
                        onto: "main".to_string()
                    }
                }
            );
        }
        other => panic!("unexpected {other:?}"),
    }
    match &menu.items[20] {
        ContextMenuItem::Entry { action, .. } => assert_eq!(
            **action,
            ContextMenuAction::OpenPopover {
                kind: PopoverKind::ResetPrompt {
                    repo_id: RepoId(1),
                    target: SHA.to_string(),
                    mode: ResetMode::Hard
                }
            }
        ),
        other => panic!("unexpected {other:?}"),
    }
}

#[test]
fn head_commit_hides_cherry_pick_and_rebase_and_busy_disables_rewrites() {
    let mut f = facts();
    f.head_commit_id = Some(SHA.to_string());
    f.history_rewrite_busy = true;
    f.squash_commit_count = Some(3);
    let menu = model(&host(), RepoId(1), SHA, &f);
    let l = labels(&menu);
    assert_eq!(l[3], "Squash 3 commits");
    assert!(!l.iter().any(|x| x == "Cherry-pick"));
    assert!(!l.iter().any(|x| x.starts_with("Rebase ")));
    assert!(matches!(&menu.items[3], ContextMenuItem::Entry { disabled: true, .. }));
    let revert = menu
        .items
        .iter()
        .find(|i| matches!(i, ContextMenuItem::Entry { label, .. } if label == "Revert"))
        .unwrap();
    assert!(matches!(revert, ContextMenuItem::Entry { disabled: true, .. }));
}

#[test]
fn a_multi_selection_offers_the_cherry_pick_plan() {
    let mut f = facts();
    f.cherry_pick_plan = Some((
        vec![
            InteractiveRebaseEntry {
                action: InteractiveRebaseAction::Pick,
                commit_id: "a".to_string(),
                summary: "A".to_string(),
                message: "A".to_string(),
                new_message: None,
            },
            InteractiveRebaseEntry {
                action: InteractiveRebaseAction::Pick,
                commit_id: SHA.to_string(),
                summary: "Fix".to_string(),
                message: "Fix".to_string(),
                new_message: None,
            },
        ],
        vec![("a".to_string(), 1), (SHA.to_string(), 2)],
    ));
    f.children_count = Some(1);
    let menu = model(&host(), RepoId(1), SHA, &f);
    let l = labels(&menu);
    assert_eq!(l[3], "Cherry-pick 2 commits…");
    assert_eq!(l[4], "-");
    assert!(!l.iter().any(|x| x == "Cherry-pick"));
    assert!(l.iter().any(|x| x == "Interactive rebase 1 child of deadbeef"));
}

#[test]
fn unknown_commit_gets_a_short_id_title_and_no_summary() {
    let mut h = host();
    h.state.repos[0].comparison_mark = None;
    h.state.repos[0].remotes = None;
    let mut f = facts();
    f.children_count = None;
    let menu = model(&h, RepoId(1), "0123456789abcdef", &f);
    let l = labels(&menu);
    assert_eq!(l[0], "# Commit 01234567");
    assert_eq!(l[1], "-");
    assert!(l.iter().any(|x| x == "Interactive rebase dev onto 01234567"));
    assert!(!l.iter().any(|x| x == "Copy commit permalink"));
}

#[test]
fn context_menu_model_routes_each_menu_kind() {
    let h = host();
    let inputs = || MenuInputs {
        hunk_patch: None,
        pick_locked: true,
        commit_facts: facts(),
    };
    let menu = h
        .context_menu_model(
            &PopoverKind::CommitMenu { repo_id: RepoId(1), commit_id: SHA.to_string() },
            inputs(),
        )
        .expect("commit menu");
    assert_eq!(labels(&menu)[0], "# main");
    let rebase = h
        .context_menu_model(
            &PopoverKind::InteractiveRebaseActionMenu { ix: 0, can_squash: false, can_drop: true },
            inputs(),
        )
        .expect("rebase menu");
    assert!(matches!(&rebase.items[0], ContextMenuItem::Entry { disabled: true, .. }));
    assert!(h.context_menu_model(&PopoverKind::StashPrompt, inputs()).is_none());
    let authors = h
        .context_menu_model(&PopoverKind::HistoryAuthorFilter { repo_id: RepoId(1) }, inputs())
        .expect("author menu");
    assert_eq!(labels(&authors)[0], "# Author filter");
}

#[test]
fn cherry_pick_plan_lists_selected_page_commits_oldest_first() {
    let mut h = host();
    let commit = |id: &str, summary: &str| Commit {
        id: id.to_string(),
        parent_ids: vec![],
        summary: summary.to_string(),
        author: "a".to_string(),
    };
    h.state.repos[0].log_commits = Some(vec![
        commit("c3", "three"),
        commit("c2", "two"),
        commit("c1", "one"),
    ]);
    let selection = vec!["c1".to_string(), "c3".to_string()];
    let colors = vec![4u8, 5];
    let (entries, source_colors) =
        multi_cherry_pick_plan(&h, RepoId(1), "c3", &selection, &colors).expect("plan");
    let ids: Vec<&str> = entries.iter().map(|e| e.commit_id.as_str()).collect();
    assert_eq!(ids, vec!["c1", "c3"]);
    assert_eq!(entries[0].message, "one");
    assert_eq!(entries[0].action, InteractiveRebaseAction::Pick);
    assert_eq!(source_colors, vec![("c1".to_string(), 0), ("c3".to_string(), 4)]);
    assert!(multi_cherry_pick_plan(&h, RepoId(1), "c2", &selection, &colors).is_none());
    assert!(multi_cherry_pick_plan(&h, RepoId(2), "c3", &selection, &colors).is_none());
    let single = vec!["c3".to_string(), "zz".to_string()];
    assert!(multi_cherry_pick_plan(&h, RepoId(1), "c3", &single, &colors).is_none());
}
