use gitcomet::cherry_pick_range::{preview_section, same_ref_hint, CherryPickRangePreview, PreviewRow, PreviewSection};
use gitcomet::model::{Commit, Loadable};

fn commit(id: &str, summary: &str) -> Commit {
    Commit { id: id.to_string(), parent_ids: vec![], summary: summary.to_string(), author: "A".to_string() }
}

fn preview(commits: Loadable<Vec<Commit>>) -> CherryPickRangePreview {
    CherryPickRangePreview { range: "main".to_string(), source: "feature".to_string(), commits }
}

#[test]
fn incomplete_or_identical_refs_show_the_hint() {
    let p = preview(Loadable::Ready(vec![commit("abcdef0123", "one")]));
    assert_eq!(preview_section("", "main", Some(&p)), PreviewSection::Hint);
    assert_eq!(preview_section("feature", "   ", Some(&p)), PreviewSection::Hint);
    assert_eq!(preview_section(" main ", "main", Some(&p)), PreviewSection::Hint);
    assert!(same_ref_hint(" main", "main "));
    assert!(!same_ref_hint("", ""));
    assert!(!same_ref_hint("feature", "main"));
}

#[test]
fn a_preview_for_other_refs_or_still_loading_shows_loading() {
    let p = preview(Loadable::Ready(vec![commit("abcdef0123", "one")]));
    assert_eq!(preview_section("feature", "develop", Some(&p)), PreviewSection::Loading);
    assert_eq!(preview_section("feature", "main", None), PreviewSection::Loading);
    let loading = preview(Loadable::Loading);
    assert_eq!(preview_section("feature", "main", Some(&loading)), PreviewSection::Loading);
    let not_loaded = preview(Loadable::NotLoaded);
    assert_eq!(preview_section("feature", "main", Some(&not_loaded)), PreviewSection::Loading);
}

#[test]
fn errors_and_empty_ranges_are_reported() {
    let failed = preview(Loadable::Error("main is not an ancestor of feature".to_string()));
    assert_eq!(
        preview_section(" feature ", "main", Some(&failed)),
        PreviewSection::Error("main is not an ancestor of feature".to_string())
    );
    let empty = preview(Loadable::Ready(vec![]));
    assert_eq!(preview_section("feature", "main", Some(&empty)), PreviewSection::NoCommits);
}

#[test]
fn commits_are_counted_and_the_first_eight_listed_with_short_ids() {
    let two = preview(Loadable::Ready(vec![commit("abcdef0123", "one"), commit("12345", "two")]));
    assert_eq!(
        preview_section("feature", "main", Some(&two)),
        PreviewSection::Commits {
            header: "2 commits will be cherry-picked — click one to open it".to_string(),
            rows: vec![
                PreviewRow { short_id: "abcdef0".to_string(), commit_id: "abcdef0123".to_string(), summary: "one".to_string() },
                PreviewRow { short_id: "12345".to_string(), commit_id: "12345".to_string(), summary: "two".to_string() },
            ],
        }
    );

    let many: Vec<Commit> = (0..11).map(|i| commit(&format!("{i:010}"), &format!("c{i}"))).collect();
    match preview_section("feature", "main", Some(&preview(Loadable::Ready(many)))) {
        PreviewSection::Commits { header, rows } => {
            assert_eq!(header, "11 commits will be cherry-picked (showing first 8 — click one to open it)");
            assert_eq!(rows.len(), 8);
            assert_eq!(rows[7].short_id, "0000000");
            assert_eq!(rows[7].summary, "c7");
        }
        other => panic!("unexpected preview {other:?}"),
    }
}
