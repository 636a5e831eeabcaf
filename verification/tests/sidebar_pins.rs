use gitcomet::model::{AppState, RepoId, RepoState};
use gitcomet::sidebar_pins::PinnedBranches;

fn sorted(mut v: Vec<(String, Vec<String>)>) -> Vec<(String, Vec<String>)> {
    for (_, keys) in v.iter_mut() {
        keys.sort();
    }
    v.sort();
    v
}

#[test]
fn toggling_pins_then_unpins() {
    let mut pins = PinnedBranches::new();
    assert!(!pins.is_pinned("/repo", "local:main"));
    pins.toggle("/repo", "local:main");
    assert!(pins.is_pinned("/repo", "local:main"));
    assert!(!pins.is_pinned("/other", "local:main"));
    pins.toggle("/repo", "local:main");
    assert!(!pins.is_pinned("/repo", "local:main"));
    assert!(pins.saved().is_empty());
}

#[test]
fn toggling_twice_restores_the_saved_pins() {
    let mut pins = PinnedBranches::new();
    pins.toggle("/a", "local:main");
    pins.toggle("/a", "remote:origin/dev");
    pins.toggle("/b", "local:topic");
    let before = sorted(pins.saved());
    pins.toggle("/a", "local:main");
    pins.toggle("/a", "local:main");
    pins.toggle("/c", "local:x");
    pins.toggle("/c", "local:x");
    assert_eq!(sorted(pins.saved()), before);
    assert_eq!(
        before,
        vec![
            ("/a".to_string(), vec!["local:main".to_string(), "remote:origin/dev".to_string()]),
            ("/b".to_string(), vec!["local:topic".to_string()]),
        ]
    );
}

#[test]
fn last_unpin_drops_the_repository() {
    let mut pins = PinnedBranches::new();
    pins.toggle("/a", "k1");
    pins.toggle("/b", "k2");
    pins.toggle("/a", "k1");
    assert_eq!(pins.saved(), vec![("/b".to_string(), vec!["k2".to_string()])]);
}

#[test]
fn toggle_pinned_branch_uses_the_repository_workdir() {
    let mut state = AppState::new();
    state.repos.push(RepoState::new_opening(RepoId(1), "/work/one".to_string()));
    let mut pins = PinnedBranches::new();
    pins.toggle_pinned_branch(&state, RepoId(1), "local:main");
    assert!(pins.is_pinned("/work/one", "local:main"));
    pins.toggle_pinned_branch(&state, RepoId(9), "local:main");
    assert_eq!(pins.saved().len(), 1);
}
