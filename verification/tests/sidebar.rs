use gitcomet::message::{Msg, SidebarDataRequest};
use gitcomet::model::{FileSource, Loadable, RepoId};
use gitcomet::popover::{BranchSection, PopoverKind, WorktreePopoverKind};
use gitcomet::sidebar::{
    ensure_collapsed_section_data, filter_result_rows, is_section_header, CollapsedPopoverState, matches_section_header, pinned_section_rows,
    section_content_rows, BranchSidebarRow, CollapsedSidebarSection,
};

fn branch(section: BranchSection, name: &str) -> BranchSidebarRow {
    BranchSidebarRow::Branch { section, name: name.to_string() }
}

/// The rows the expanded sidebar shows for a repository with local branches
/// `locals` and remote branches `remotes` (on `origin`).
fn rows(locals: &[&str], remotes: &[&str]) -> Vec<BranchSidebarRow> {
    let mut out = Vec::new();
    if !locals.is_empty() {
        out.push(BranchSidebarRow::SectionHeader { section: BranchSection::Local });
        out.extend(locals.iter().map(|n| branch(BranchSection::Local, n)));
        out.push(BranchSidebarRow::SectionSpacer);
    }
    if !remotes.is_empty() {
        out.push(BranchSidebarRow::SectionHeader { section: BranchSection::Remote });
        out.push(BranchSidebarRow::RemoteHeader { name: "origin".to_string() });
        out.extend(remotes.iter().map(|n| branch(BranchSection::Remote, &format!("origin/{n}"))));
        out.push(BranchSidebarRow::SectionSpacer);
    }
    out.push(BranchSidebarRow::WorktreesHeader);
    out.push(BranchSidebarRow::SectionSpacer);
    out
}

fn branch_names(rows: &[BranchSidebarRow]) -> Vec<String> {
    rows.iter()
        .filter_map(|row| match row {
            BranchSidebarRow::Branch { name, .. } => Some(name.to_string()),
            _ => None,
        })
        .collect()
}

fn group_header_sections(rows: &[BranchSidebarRow]) -> Vec<BranchSection> {
    rows.iter()
        .filter_map(|row| match row {
            BranchSidebarRow::FilterGroupHeader { section } => Some(*section),
            _ => None,
        })
        .collect()
}

#[test]
fn collapsed_popover_filter_surfaces_the_other_branch_section() {
    // The sidebar rows filtered by "feature".
    let full = rows(&["feature/alpha"], &["feature/beta"]);
    let rows_local = filter_result_rows(&full, CollapsedSidebarSection::Local);

    assert_eq!(
        group_header_sections(&rows_local),
        vec![BranchSection::Local, BranchSection::Remote],
        "a cross-section match should label the open section then the other one"
    );
    assert_eq!(
        branch_names(&rows_local),
        vec!["feature/alpha".to_string(), "origin/feature/beta".to_string()],
        "local matches lead, remote matches follow"
    );

    let rows_remote = filter_result_rows(&full, CollapsedSidebarSection::Remote);
    assert_eq!(
        group_header_sections(&rows_remote),
        vec![BranchSection::Remote, BranchSection::Local]
    );
    assert_eq!(
        branch_names(&rows_remote),
        vec!["origin/feature/beta".to_string(), "feature/alpha".to_string()]
    );
}

#[test]
fn collapsed_popover_filter_stays_unlabelled_when_only_one_section_matches() {
    // The sidebar rows filtered by "main".
    let full = rows(&["main"], &[]);
    let rows = filter_result_rows(&full, CollapsedSidebarSection::Local);

    assert!(
        group_header_sections(&rows).is_empty(),
        "a single-section result needs no group labels; the popover title says it"
    );
    assert_eq!(branch_names(&rows), vec!["main".to_string()]);
}

#[test]
fn collapsed_popover_filter_shows_only_the_other_section_when_the_open_one_misses() {
    // The sidebar rows filtered by "release".
    let full = rows(&[], &["release"]);
    let rows = filter_result_rows(&full, CollapsedSidebarSection::Local);

    assert_eq!(
        group_header_sections(&rows),
        vec![BranchSection::Remote],
        "with no local matches only the remote half is labelled"
    );
    assert_eq!(branch_names(&rows), vec!["origin/release".to_string()]);
}

#[test]
fn section_rows_include_pins_and_drop_headers_and_spacers() {
    let mut full = vec![
        BranchSidebarRow::PinnedHeader { section: BranchSection::Local },
        branch(BranchSection::Local, "pinned"),
        BranchSidebarRow::SectionSpacer,
    ];
    full.extend(rows(&["a", "b"], &["c"]));
    let local = section_content_rows(&full, CollapsedSidebarSection::Local);
    assert_eq!(
        local,
        vec![
            BranchSidebarRow::PinnedHeader { section: BranchSection::Local },
            branch(BranchSection::Local, "pinned"),
            branch(BranchSection::Local, "a"),
            branch(BranchSection::Local, "b"),
        ]
    );
    assert!(pinned_section_rows(&full, BranchSection::Remote).is_empty());
    assert_eq!(section_content_rows(&full, CollapsedSidebarSection::Worktrees), vec![]);
    assert_eq!(section_content_rows(&full, CollapsedSidebarSection::Files), vec![]);
    assert!(is_section_header(&BranchSidebarRow::StashHeader));
    assert!(!is_section_header(&BranchSidebarRow::SectionSpacer));
    assert!(matches_section_header(
        &BranchSidebarRow::SubmodulesHeader,
        CollapsedSidebarSection::Submodules
    ));
    assert!(!matches_section_header(
        &BranchSidebarRow::SectionHeader { section: BranchSection::Local },
        CollapsedSidebarSection::Remote
    ));
}

#[test]
fn collapsed_sections_describe_themselves() {
    let s = CollapsedSidebarSection::Local;
    assert_eq!(s.title(), "Local Branches");
    assert_eq!(s.icon_path(), "icons/computer.svg");
    assert_eq!(s.element_id(), "collapsed_sidebar_icon_local");
    assert_eq!(s.branch_section(), Some(BranchSection::Local));
    assert_eq!(s.counterpart(), Some(CollapsedSidebarSection::Remote));
    assert_eq!(CollapsedSidebarSection::Files.counterpart(), None);
    assert_eq!(
        s.section_menu(RepoId(42)),
        Some((
            "branch_section_menu_42_local".to_string(),
            PopoverKind::BranchSectionMenu { repo_id: RepoId(42), section: BranchSection::Local }
        ))
    );
    assert_eq!(
        CollapsedSidebarSection::Worktrees.section_menu(RepoId(7)),
        Some((
            "worktrees_section_menu_7".to_string(),
            PopoverKind::worktree(RepoId(7), WorktreePopoverKind::SectionMenu)
        ))
    );
    assert_eq!(
        CollapsedSidebarSection::Stashes.section_menu(RepoId(0)),
        Some(("stash_section_menu_0".to_string(), PopoverKind::StashPrompt))
    );
    assert_eq!(CollapsedSidebarSection::Files.section_menu(RepoId(1)), None);
}

#[test]
fn section_popovers_load_missing_data_first() {
    let r = RepoId(5);
    let missing: Loadable<Vec<String>> = Loadable::NotLoaded;
    let failed: Loadable<Vec<String>> = Loadable::Error("boom".to_string());
    let ready: Loadable<Vec<String>> = Loadable::Ready(vec![]);
    let src = FileSource::WorkingDirectory;
    assert_eq!(
        ensure_collapsed_section_data(CollapsedSidebarSection::Submodules, r, &failed, &ready, &src),
        Some(Msg::LoadSubmodules { repo_id: r })
    );
    assert_eq!(ensure_collapsed_section_data(CollapsedSidebarSection::Submodules, r, &ready, &ready, &src), None);
    assert_eq!(
        ensure_collapsed_section_data(CollapsedSidebarSection::Stashes, r, &ready, &ready, &src),
        Some(Msg::EnsureSidebarData {
            repo_id: r,
            request: SidebarDataRequest { worktrees: true, submodules: false, stashes: true },
        })
    );
    assert_eq!(
        ensure_collapsed_section_data(CollapsedSidebarSection::Worktrees, r, &ready, &ready, &src),
        Some(Msg::EnsureSidebarData {
            repo_id: r,
            request: SidebarDataRequest { worktrees: true, submodules: false, stashes: false },
        })
    );
    assert_eq!(
        ensure_collapsed_section_data(CollapsedSidebarSection::Files, r, &ready, &missing, &src),
        Some(Msg::LoadFileBrowser { repo_id: r, source: FileSource::WorkingDirectory })
    );
    assert_eq!(ensure_collapsed_section_data(CollapsedSidebarSection::Local, r, &missing, &missing, &src), None);
}

#[test]
fn a_new_section_drops_the_previous_filter() {
    let mut popover = CollapsedPopoverState::new();
    popover.set_section(Some(CollapsedSidebarSection::Local));
    assert!(popover.toggle_filter());
    popover.filter_query = "  feat ".to_string();
    assert_eq!(popover.effective_query(), "feat");

    // Reopening the same section keeps the filter.
    popover.set_section(Some(CollapsedSidebarSection::Local));
    assert_eq!(popover.effective_query(), "feat");

    popover.set_section(Some(CollapsedSidebarSection::Remote));
    assert!(!popover.filter_open);
    assert_eq!(popover.filter_query, "");
    assert_eq!(popover.effective_query(), "");

    assert!(popover.toggle_filter());
    popover.filter_query = "x".to_string();
    assert!(!popover.toggle_filter());
    assert_eq!(popover.filter_query, "");
}
