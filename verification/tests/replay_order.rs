use gitcomet::replay_order::{topological_replay_order, CycleError};

#[test]
fn dependencies_come_first_and_ties_keep_selection_order() {
    // 0 depends on 2, 1 depends on nothing, 2 depends on 1.
    let deps = vec![vec![2], vec![], vec![1]];
    assert_eq!(topological_replay_order(&deps), Ok(vec![1, 2, 0]));
    let independent = vec![vec![], vec![], vec![]];
    assert_eq!(topological_replay_order(&independent), Ok(vec![0, 1, 2]));
    assert_eq!(topological_replay_order(&vec![]), Ok(vec![]));
}

#[test]
fn cycles_cannot_be_ordered() {
    let deps = vec![vec![1], vec![0]];
    assert_eq!(topological_replay_order(&deps), Err(CycleError));
    let self_loop = vec![vec![0]];
    assert_eq!(topological_replay_order(&self_loop), Err(CycleError));
}
