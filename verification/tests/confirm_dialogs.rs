use gitcomet::confirm_dialogs::{
    squash_prompt, terminal_shutdown_dialog, unsaved_edits_dialog, SquashPlan, SquashPromptBody,
    TerminalShutdownAction, UnsavedEditsAction,
};
use gitcomet::model::Loadable;

#[test]
fn terminal_dialog_for_quit_lists_repositories() {
    let repos = vec!["alpha".to_string(), "beta".to_string()];
    let d = terminal_shutdown_dialog(TerminalShutdownAction::QuitApp, 2, 3, &repos);
    assert_eq!(d.title, "Quit GitComet?");
    assert_eq!(d.confirm_label, "Terminate and quit");
    assert_eq!(
        d.text,
        "3 running commands are still active in 2 terminals. Cancel to keep the terminal open, or terminate it to continue."
    );
    assert_eq!(d.listed_repos, repos);
}

#[test]
fn terminal_dialog_for_one_tab_uses_singular_and_lists_nothing() {
    let repos = vec!["alpha".to_string()];
    let d = terminal_shutdown_dialog(TerminalShutdownAction::CloseTerminalTab, 1, 1, &repos);
    assert_eq!(d.title, "Close terminal?");
    assert_eq!(d.confirm_label, "Terminate and close");
    assert_eq!(
        d.text,
        "1 running command is still active in terminal. Cancel to keep the terminal open, or terminate it to continue."
    );
    assert!(d.listed_repos.is_empty());

    let d = terminal_shutdown_dialog(TerminalShutdownAction::CloseWindow, 1, 0, &Vec::new());
    assert_eq!(d.title, "Close window?");
    assert!(d.text.starts_with("0 running commands are still active in terminal."));
    assert!(d.listed_repos.is_empty());
}

#[test]
fn unsaved_dialog_caps_the_file_list() {
    let files: Vec<String> = (1..=10).map(|i| format!("file{i}.rs")).collect();
    let d = unsaved_edits_dialog(UnsavedEditsAction::QuitApp, &files);
    assert_eq!(d.title, "Quit GitComet?");
    assert_eq!(d.discard_label, "Discard and quit");
    assert_eq!(d.text, "10 edited files have not been saved. Save them, or discard the changes.");
    assert_eq!(d.shown_files, files[..8].to_vec());
    assert_eq!(d.more.as_deref(), Some("…and 2 more"));
}

#[test]
fn unsaved_dialog_for_one_file() {
    let files = vec!["notes.md".to_string()];
    let d = unsaved_edits_dialog(UnsavedEditsAction::CloseWindow, &files);
    assert_eq!(d.title, "Close window?");
    assert_eq!(d.discard_label, "Discard and close");
    assert_eq!(d.text, "1 edited file has not been saved. Save them, or discard the changes.");
    assert_eq!(d.shown_files, files);
    assert_eq!(d.more, None);
}

fn plan(head: &str, actual_head: &str) -> SquashPlan {
    SquashPlan {
        oldest: "0123456789abcdef".to_string(),
        head: head.to_string(),
        actual_head: actual_head.to_string(),
        commit_count: 3,
    }
}

#[test]
fn squash_prompt_on_head() {
    let p = Some(plan("fedcba9876543210", "fedcba9876543210"));
    match squash_prompt(&p, &Loadable::<String>::Ready("msg".to_string()), "Combined") {
        SquashPromptBody::Plan { title, summary, message_hint, submit_enabled } => {
            assert_eq!(title, "Squash 3 commits");
            assert_eq!(summary, "01234567..fedcba98 → one commit on HEAD");
            assert_eq!(message_hint, None);
            assert!(submit_enabled);
        }
        SquashPromptBody::NotSquashable => panic!("expected a plan"),
    }
}

#[test]
fn squash_prompt_below_head_with_pending_message() {
    let p = Some(plan("fedcba9876543210", "1111111111111111"));
    match squash_prompt(&p, &Loadable::<String>::Loading, "   ") {
        SquashPromptBody::Plan { summary, message_hint, submit_enabled, .. } => {
            assert_eq!(summary, "01234567..fedcba98 → one commit · rewriting commits above");
            assert_eq!(message_hint.as_deref(), Some("Building combined message…"));
            assert!(!submit_enabled);
        }
        SquashPromptBody::NotSquashable => panic!("expected a plan"),
    }
    match squash_prompt(&p, &Loadable::<String>::Error("boom".to_string()), "x") {
        SquashPromptBody::Plan { message_hint, .. } => {
            assert_eq!(message_hint.as_deref(), Some("Could not build the combined message: boom"));
        }
        SquashPromptBody::NotSquashable => panic!("expected a plan"),
    }
}

#[test]
fn squash_prompt_without_plan() {
    assert!(matches!(
        squash_prompt(&None, &Loadable::<String>::NotLoaded, "m"),
        SquashPromptBody::NotSquashable
    ));
}
