use gitcomet::walk_tips::{all_branches_walk_tips, RefTip};

fn r(is_tag: bool, id: Option<&str>) -> RefTip {
    RefTip { is_tag, commit_id: id.map(|s| s.to_string()) }
}

fn s(v: &[&str]) -> Vec<String> {
    v.iter().map(|x| x.to_string()).collect()
}

#[test]
fn tips_start_at_head_skip_tags_and_repeat_nothing() {
    let refs = vec![
        r(false, Some("aaa")),
        r(true, Some("ttt")),
        r(false, Some("bbb")),
        r(false, None),
        r(false, Some("aaa")),
    ];
    let tips = all_branches_walk_tips(Some("hhh".to_string()), &refs, &s(&["sss", "bbb", "sss"]));
    assert_eq!(tips, s(&["hhh", "aaa", "bbb", "sss"]));
}

#[test]
fn tips_without_head_or_refs() {
    assert!(all_branches_walk_tips(None, &Vec::new(), &Vec::new()).is_empty());
    let tips = all_branches_walk_tips(Some("h".to_string()), &vec![r(false, Some("h"))], &s(&["h"]));
    assert_eq!(tips, s(&["h"]));
}
