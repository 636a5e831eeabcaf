use gitcomet::context_menu::keys::{ContextMenuKeyOutcome, KeyModifiers};
use gitcomet::context_menu::{ContextMenuAction, ContextMenuItem, ContextMenuModel};
use gitcomet::model::RepoId;

fn entry(label: &str, shortcut: Option<&str>, icon: Option<&str>, disabled: bool) -> ContextMenuItem {
    ContextMenuItem::Entry {
        label: label.into(),
        icon: icon.map(|i| i.to_string()),
        shortcut: shortcut.map(|s| s.to_string()),
        disabled,
        action: Box::new(ContextMenuAction::FetchAll { repo_id: RepoId(1) }),
    }
}

fn menu() -> ContextMenuModel {
    ContextMenuModel::new(vec![
        ContextMenuItem::Header("Branch".into()),
        entry("Checkout", Some("C"), None, false),
        ContextMenuItem::Separator,
        entry("Pull", Some("P"), None, false),
        entry("Delete", Some("D"), None, true),
    ])
}

fn plain() -> KeyModifiers {
    KeyModifiers { control: false, platform: false, alt: false, function: false, shift: false }
}

#[test]
fn navigation_keys_step_and_jump_between_enabled_entries() {
    let model = menu();
    assert_eq!(model.key_outcome(None, "escape", plain()), ContextMenuKeyOutcome::Close);
    assert_eq!(model.key_outcome(None, "up", plain()), ContextMenuKeyOutcome::StepBack);
    assert_eq!(model.key_outcome(None, "down", plain()), ContextMenuKeyOutcome::StepForward);
    assert_eq!(model.key_outcome(None, "tab", plain()), ContextMenuKeyOutcome::StepForward);
    let shift = KeyModifiers { shift: true, ..plain() };
    assert_eq!(model.key_outcome(None, "tab", shift), ContextMenuKeyOutcome::StepBack);
    assert_eq!(model.key_outcome(None, "home", plain()), ContextMenuKeyOutcome::Select(Some(1)));
    // The disabled last entry is skipped.
    assert_eq!(model.key_outcome(None, "end", plain()), ContextMenuKeyOutcome::Select(Some(3)));
    assert_eq!(model.last_selectable(), Some(3));
}

#[test]
fn enter_and_shortcuts_activate_entries_and_modifiers_are_left_alone() {
    let model = menu();
    assert_eq!(model.key_outcome(Some(3), "enter", plain()), ContextMenuKeyOutcome::Activate(3));
    assert_eq!(model.key_outcome(Some(4), "space", plain()), ContextMenuKeyOutcome::Activate(1));
    assert_eq!(model.key_outcome(None, "p", plain()), ContextMenuKeyOutcome::Activate(3));
    assert_eq!(model.key_outcome(None, "d", plain()), ContextMenuKeyOutcome::Ignored);
    let ctrl = KeyModifiers { control: true, ..plain() };
    assert_eq!(model.key_outcome(None, "escape", ctrl), ContextMenuKeyOutcome::Ignored);
    let empty = ContextMenuModel::new(vec![ContextMenuItem::Header("Nothing".into())]);
    assert_eq!(empty.key_outcome(None, "enter", plain()), ContextMenuKeyOutcome::Ignored);
    assert_eq!(empty.key_outcome(None, "end", plain()), ContextMenuKeyOutcome::Select(None));
}

#[test]
fn highlight_follows_only_enabled_entries_and_icons_reserve_a_column() {
    let model = menu();
    assert_eq!(model.highlighted_row(Some(1)), Some(1));
    assert_eq!(model.highlighted_row(Some(4)), None);
    assert_eq!(model.highlighted_row(Some(0)), None);
    assert_eq!(model.highlighted_row(None), None);
    assert!(!model.reserves_icon_column());
    let with_icon = ContextMenuModel::new(vec![
        entry("Plain", None, None, false),
        entry("Checked", None, Some("icons/check.svg"), false),
    ]);
    assert!(with_icon.reserves_icon_column());
}
