//! The sidebar: its sections as the collapsed rail shows them, and the rows a
//! section popover (and its filter) shows.
use vstd::prelude::*;
use crate::find::{first_where, is_first_where, lemma_first_where_found, lemma_first_where_none, lemma_map_push};
use crate::message::{Msg, MsgView, SidebarDataRequest};
use crate::model::{FileSource, FileSourceView, Loadable, RepoId};
use crate::context_menu::copy_file_source;
use crate::popover::{BranchSection, PopoverKind, PopoverKindView, RepoPopoverKind, SubmodulePopoverKind, WorktreePopoverKind};
use crate::text::{push_all, push_str, string_of, trim, trimmed};
use crate::virtual_branches::{decimal, decimal_string};

verus! {

/// A section of the sidebar that gets its own icon in the collapsed rail.
#[derive(Clone, Copy, Debug, PartialEq, Eq, Structural)]
pub enum CollapsedSidebarSection {
    Local,
    Remote,
    Worktrees,
    Submodules,
    Stashes,
    Files,
}

pub open spec fn section_icon(s: CollapsedSidebarSection) -> Seq<char> {
    match s {
        CollapsedSidebarSection::Local => "icons/computer.svg"@,
        CollapsedSidebarSection::Remote => "icons/cloud.svg"@,
        CollapsedSidebarSection::Worktrees => "icons/git_worktree.svg"@,
        CollapsedSidebarSection::Submodules => "icons/box.svg"@,
        CollapsedSidebarSection::Stashes => "icons/stash.svg"@,
        CollapsedSidebarSection::Files => "icons/file.svg"@,
    }
}

pub open spec fn section_title(s: CollapsedSidebarSection) -> Seq<char> {
    match s {
        CollapsedSidebarSection::Local => "Local Branches"@,
        CollapsedSidebarSection::Remote => "Remote Branches"@,
        CollapsedSidebarSection::Worktrees => "Worktrees"@,
        CollapsedSidebarSection::Submodules => "Submodules"@,
        CollapsedSidebarSection::Stashes => "Stashes"@,
        CollapsedSidebarSection::Files => "Files"@,
    }
}

pub open spec fn section_element_id(s: CollapsedSidebarSection) -> Seq<char> {
    match s {
        CollapsedSidebarSection::Local => "collapsed_sidebar_icon_local"@,
        CollapsedSidebarSection::Remote => "collapsed_sidebar_icon_remote"@,
        CollapsedSidebarSection::Worktrees => "collapsed_sidebar_icon_worktrees"@,
        CollapsedSidebarSection::Submodules => "collapsed_sidebar_icon_submodules"@,
        CollapsedSidebarSection::Stashes => "collapsed_sidebar_icon_stashes"@,
        CollapsedSidebarSection::Files => "collapsed_sidebar_icon_files"@,
    }
}

/// The branch list a section shows: Local and Remote only.
pub open spec fn section_branch_section(s: CollapsedSidebarSection) -> Option<BranchSection> {
    match s {
        CollapsedSidebarSection::Local => Some(BranchSection::Local),
        CollapsedSidebarSection::Remote => Some(BranchSection::Remote),
        _ => None,
    }
}

/// The other branch section, whose matches a filter also surfaces.
pub open spec fn section_counterpart(s: CollapsedSidebarSection) -> Option<CollapsedSidebarSection> {
    match s {
        CollapsedSidebarSection::Local => Some(CollapsedSidebarSection::Remote),
        CollapsedSidebarSection::Remote => Some(CollapsedSidebarSection::Local),
        _ => None,
    }
}

/// The section menu of a section's header: the id of the header that invokes
/// it and the popover; Files has none.
pub open spec fn section_menu_spec(s: CollapsedSidebarSection, repo_id: RepoId) -> Option<
    (Seq<char>, PopoverKindView),
> {
    let id = decimal(repo_id.0 as nat);
    match s {
        CollapsedSidebarSection::Local => Some(
            (
                "branch_section_menu_"@ + id + "_local"@,
                PopoverKindView::BranchSectionMenu { repo_id, section: BranchSection::Local },
            ),
        ),
        CollapsedSidebarSection::Remote => Some(
            (
                "branch_section_menu_"@ + id + "_remote"@,
                PopoverKindView::BranchSectionMenu { repo_id, section: BranchSection::Remote },
            ),
        ),
        CollapsedSidebarSection::Worktrees => Some(
            (
                "worktrees_section_menu_"@ + id,
                PopoverKindView::Repo {
                    repo_id,
                    kind: RepoPopoverKind::Worktree(WorktreePopoverKind::SectionMenu),
                },
            ),
        ),
        CollapsedSidebarSection::Submodules => Some(
            (
                "submodules_section_menu_"@ + id,
                PopoverKindView::Repo {
                    repo_id,
                    kind: RepoPopoverKind::Submodule(SubmodulePopoverKind::SectionMenu),
                },
            ),
        ),
        CollapsedSidebarSection::Stashes => Some(
            ("stash_section_menu_"@ + id, PopoverKindView::StashPrompt),
        ),
        CollapsedSidebarSection::Files => None,
    }
}

fn prefixed_id(prefix: &str, id: u64, suffix: &str) -> (res: String)
    ensures
        res@ == prefix@ + decimal(id as nat) + suffix@,
{
    let mut chars: Vec<char> = Vec::new();
    push_str(&mut chars, prefix);
    let digits = decimal_string(id);
    push_all(&mut chars, &digits);
    push_str(&mut chars, suffix);
    string_of(&chars)
}

impl CollapsedSidebarSection {
    pub fn icon_path(self) -> (res: &'static str)
        ensures
            res@ == section_icon(self),
    {
        match self {
            CollapsedSidebarSection::Local => "icons/computer.svg",
            CollapsedSidebarSection::Remote => "icons/cloud.svg",
            CollapsedSidebarSection::Worktrees => "icons/git_worktree.svg",
            CollapsedSidebarSection::Submodules => "icons/box.svg",
            CollapsedSidebarSection::Stashes => "icons/stash.svg",
            CollapsedSidebarSection::Files => "icons/file.svg",
        }
    }

    pub fn title(self) -> (res: &'static str)
        ensures
            res@ == section_title(self),
    {
        match self {
            CollapsedSidebarSection::Local => "Local Branches",
            CollapsedSidebarSection::Remote => "Remote Branches",
            CollapsedSidebarSection::Worktrees => "Worktrees",
            CollapsedSidebarSection::Submodules => "Submodules",
            CollapsedSidebarSection::Stashes => "Stashes",
            CollapsedSidebarSection::Files => "Files",
        }
    }

    pub fn element_id(self) -> (res: &'static str)
        ensures
            res@ == section_element_id(self),
    {
        match self {
            CollapsedSidebarSection::Local => "collapsed_sidebar_icon_local",
            CollapsedSidebarSection::Remote => "collapsed_sidebar_icon_remote",
            CollapsedSidebarSection::Worktrees => "collapsed_sidebar_icon_worktrees",
            CollapsedSidebarSection::Submodules => "collapsed_sidebar_icon_submodules",
            CollapsedSidebarSection::Stashes => "collapsed_sidebar_icon_stashes",
            CollapsedSidebarSection::Files => "collapsed_sidebar_icon_files",
        }
    }

    pub fn branch_section(self) -> (res: Option<BranchSection>)
        ensures
            res == section_branch_section(self),
    {
        match self {
            CollapsedSidebarSection::Local => Some(BranchSection::Local),
            CollapsedSidebarSection::Remote => Some(BranchSection::Remote),
            _ => None,
        }
    }

    pub fn counterpart(self) -> (res: Option<CollapsedSidebarSection>)
        ensures
            res == section_counterpart(self),
    {
        match self {
            CollapsedSidebarSection::Local => Some(CollapsedSidebarSection::Remote),
            CollapsedSidebarSection::Remote => Some(CollapsedSidebarSection::Local),
            _ => None,
        }
    }

    pub fn section_menu(self, repo_id: RepoId) -> (res: Option<(String, PopoverKind)>)
        ensures
            match res {
                Some((invoker, kind)) => section_menu_spec(self, repo_id) == Some((invoker@, kind@)),
                None => section_menu_spec(self, repo_id) is None,
            },
    {
        match self {
            CollapsedSidebarSection::Local => Some(
                (
                    prefixed_id("branch_section_menu_", repo_id.0, "_local"),
                    PopoverKind::BranchSectionMenu { repo_id, section: BranchSection::Local },
                ),
            ),
            CollapsedSidebarSection::Remote => Some(
                (
                    prefixed_id("branch_section_menu_", repo_id.0, "_remote"),
                    PopoverKind::BranchSectionMenu { repo_id, section: BranchSection::Remote },
                ),
            ),
            CollapsedSidebarSection::Worktrees => {
                let invoker = prefixed_id("worktrees_section_menu_", repo_id.0, "");
                proof {
                    reveal_strlit("");
                    assert(invoker@ =~= "worktrees_section_menu_"@ + decimal(repo_id.0 as nat));
                }
                Some((invoker, PopoverKind::worktree(repo_id, WorktreePopoverKind::SectionMenu)))
            },
            CollapsedSidebarSection::Submodules => {
                let invoker = prefixed_id("submodules_section_menu_", repo_id.0, "");
                proof {
                    reveal_strlit("");
                    assert(invoker@ =~= "submodules_section_menu_"@ + decimal(repo_id.0 as nat));
                }
                Some((invoker, PopoverKind::submodule(repo_id, SubmodulePopoverKind::SectionMenu)))
            },
            CollapsedSidebarSection::Stashes => {
                let invoker = prefixed_id("stash_section_menu_", repo_id.0, "");
                proof {
                    reveal_strlit("");
                    assert(invoker@ =~= "stash_section_menu_"@ + decimal(repo_id.0 as nat));
                }
                Some((invoker, PopoverKind::StashPrompt))
            },
            CollapsedSidebarSection::Files => None,
        }
    }
}

/// One row of the branch sidebar.
#[derive(Clone, Debug, PartialEq, Eq)]
pub enum BranchSidebarRow {
    PinnedHeader { section: BranchSection },
    SectionHeader { section: BranchSection },
    WorktreesHeader,
    SubmodulesHeader,
    StashHeader,
    VirtualBranchesHeader,
    SectionSpacer,
    FilterGroupHeader { section: BranchSection },
    RemoteHeader { name: String },
    Branch { section: BranchSection, name: String },
    Worktree { path: String },
    Submodule { path: String },
    Stash { index: usize, message: String },
    VirtualBranch { id: u64, name: String },
}

pub enum RowView {
    PinnedHeader { section: BranchSection },
    SectionHeader { section: BranchSection },
    WorktreesHeader,
    SubmodulesHeader,
    StashHeader,
    VirtualBranchesHeader,
    SectionSpacer,
    FilterGroupHeader { section: BranchSection },
    RemoteHeader { name: Seq<char> },
    Branch { section: BranchSection, name: Seq<char> },
    Worktree { path: Seq<char> },
    Submodule { path: Seq<char> },
    Stash { index: usize, message: Seq<char> },
    VirtualBranch { id: u64, name: Seq<char> },
}

impl View for BranchSidebarRow {
    type V = RowView;

    open spec fn view(&self) -> RowView {
        match self {
            BranchSidebarRow::PinnedHeader { section } => RowView::PinnedHeader { section: *section },
            BranchSidebarRow::SectionHeader { section } => RowView::SectionHeader {
                section: *section,
            },
            BranchSidebarRow::WorktreesHeader => RowView::WorktreesHeader,
            BranchSidebarRow::SubmodulesHeader => RowView::SubmodulesHeader,
            BranchSidebarRow::StashHeader => RowView::StashHeader,
            BranchSidebarRow::VirtualBranchesHeader => RowView::VirtualBranchesHeader,
            BranchSidebarRow::SectionSpacer => RowView::SectionSpacer,
            BranchSidebarRow::FilterGroupHeader { section } => RowView::FilterGroupHeader {
                section: *section,
            },
            BranchSidebarRow::RemoteHeader { name } => RowView::RemoteHeader { name: name@ },
            BranchSidebarRow::Branch { section, name } => RowView::Branch {
                section: *section,
                name: name@,
            },
            BranchSidebarRow::Worktree { path } => RowView::Worktree { path: path@ },
            BranchSidebarRow::Submodule { path } => RowView::Submodule { path: path@ },
            BranchSidebarRow::Stash { index, message } => RowView::Stash {
                index: *index,
                message: message@,
            },
            BranchSidebarRow::VirtualBranch { id, name } => RowView::VirtualBranch {
                id: *id,
                name: name@,
            },
        }
    }
}

pub open spec fn rows_view(rows: Seq<BranchSidebarRow>) -> Seq<RowView> {
    rows.map_values(|r: BranchSidebarRow| r@)
}

/// A copy of `row` with the same view.
pub fn copy_row(row: &BranchSidebarRow) -> (res: BranchSidebarRow)
    ensures
        res@ == row@,
{
    match row {
        BranchSidebarRow::PinnedHeader { section } => BranchSidebarRow::PinnedHeader {
            section: *section,
        },
        BranchSidebarRow::SectionHeader { section } => BranchSidebarRow::SectionHeader {
            section: *section,
        },
        BranchSidebarRow::WorktreesHeader => BranchSidebarRow::WorktreesHeader,
        BranchSidebarRow::SubmodulesHeader => BranchSidebarRow::SubmodulesHeader,
        BranchSidebarRow::StashHeader => BranchSidebarRow::StashHeader,
        BranchSidebarRow::VirtualBranchesHeader => BranchSidebarRow::VirtualBranchesHeader,
        BranchSidebarRow::SectionSpacer => BranchSidebarRow::SectionSpacer,
        BranchSidebarRow::FilterGroupHeader { section } => BranchSidebarRow::FilterGroupHeader {
            section: *section,
        },
        BranchSidebarRow::RemoteHeader { name } => BranchSidebarRow::RemoteHeader {
            name: name.clone(),
        },
        BranchSidebarRow::Branch { section, name } => BranchSidebarRow::Branch {
            section: *section,
            name: name.clone(),
        },
        BranchSidebarRow::Worktree { path } => BranchSidebarRow::Worktree { path: path.clone() },
        BranchSidebarRow::Submodule { path } => BranchSidebarRow::Submodule { path: path.clone() },
        BranchSidebarRow::Stash { index, message } => BranchSidebarRow::Stash {
            index: *index,
            message: message.clone(),
        },
        BranchSidebarRow::VirtualBranch { id, name } => BranchSidebarRow::VirtualBranch {
            id: *id,
            name: name.clone(),
        },
    }
}

/// A row that begins a top-level sidebar section.
pub open spec fn is_header_row(row: RowView) -> bool {
    ||| row is PinnedHeader
    ||| row is SectionHeader
    ||| row is WorktreesHeader
    ||| row is SubmodulesHeader
    ||| row is StashHeader
    ||| row is VirtualBranchesHeader
}

pub fn is_section_header(row: &BranchSidebarRow) -> (res: bool)
    ensures
        res == is_header_row(row@),
{
    match row {
        BranchSidebarRow::PinnedHeader { .. } | BranchSidebarRow::SectionHeader { .. }
        | BranchSidebarRow::WorktreesHeader | BranchSidebarRow::SubmodulesHeader
        | BranchSidebarRow::StashHeader | BranchSidebarRow::VirtualBranchesHeader => true,
        _ => false,
    }
}

/// The rows without the spacers between sections.
pub open spec fn without_spacers(rows: Seq<RowView>) -> Seq<RowView> {
    rows.filter(|r: RowView| !(r is SectionSpacer))
}

/// Where the section that starts at `start` ends: the next section header,
/// or the end of the rows.
pub open spec fn section_end(rows: Seq<RowView>, start: int) -> int {
    match first_where(rows.skip(start + 1), |r: RowView| is_header_row(r)) {
        Some(p) => start + 1 + p,
        None => rows.len() as int,
    }
}

/// The pinned section of `section`: its header and pinned branches, without
/// spacers; nothing when there is no such section.
pub open spec fn pinned_rows(rows: Seq<RowView>, section: BranchSection) -> Seq<RowView> {
    match first_where(rows, |r: RowView| r == RowView::PinnedHeader { section }) {
        Some(start) => without_spacers(rows.subrange(start, section_end(rows, start))),
        None => Seq::empty(),
    }
}

/// The header row of `section` in the expanded sidebar.
pub open spec fn header_matches(row: RowView, section: CollapsedSidebarSection) -> bool {
    match section {
        CollapsedSidebarSection::Local => row == RowView::SectionHeader {
            section: BranchSection::Local,
        },
        CollapsedSidebarSection::Remote => row == RowView::SectionHeader {
            section: BranchSection::Remote,
        },
        CollapsedSidebarSection::Worktrees => row is WorktreesHeader,
        CollapsedSidebarSection::Submodules => row is SubmodulesHeader,
        CollapsedSidebarSection::Stashes => row is StashHeader,
        CollapsedSidebarSection::Files => false,
    }
}

/// The content of `section` for its popover: for a branch section its pinned
/// section first; then the rows between its header and the next header,
/// without spacers.
pub open spec fn section_rows(rows: Seq<RowView>, section: CollapsedSidebarSection) -> Seq<RowView> {
    let pinned = match section {
        CollapsedSidebarSection::Local => pinned_rows(rows, BranchSection::Local),
        CollapsedSidebarSection::Remote => pinned_rows(rows, BranchSection::Remote),
        _ => Seq::empty(),
    };
    match first_where(rows, |r: RowView| header_matches(r, section)) {
        Some(start) => pinned + without_spacers(rows.subrange(start + 1, section_end(rows, start))),
        None => pinned,
    }
}

/// What a popover filter shows: the open section's rows, and for a branch
/// section the other branch section's rows after them; once both have rows
/// each half gets a group header (the open one followed by a spacer).
pub open spec fn filter_rows(rows: Seq<RowView>, section: CollapsedSidebarSection) -> Seq<RowView> {
    let primary = section_rows(rows, section);
    match section_counterpart(section) {
        None => primary,
        Some(other) => {
            let secondary = section_rows(rows, other);
            if secondary.len() == 0 {
                primary
            } else {
                let lead = match section_branch_section(section) {
                    Some(bs) => if primary.len() > 0 {
                        seq![RowView::FilterGroupHeader { section: bs }] + primary + seq![
                            RowView::SectionSpacer,
                        ]
                    } else {
                        Seq::empty()
                    },
                    None => Seq::empty(),
                };
                let other_header = match section_branch_section(other) {
                    Some(obs) => seq![RowView::FilterGroupHeader { section: obs }],
                    None => Seq::empty(),
                };
                lead + other_header + secondary
            }
        },
    }
}

proof fn lemma_without_spacers_has_none(rows: Seq<RowView>)
    ensures
        forall|k: int|
            0 <= k < without_spacers(rows).len() ==> !(#[trigger] without_spacers(rows)[k] is SectionSpacer),
{
    let pred = |r: RowView| !(r is SectionSpacer);
    assert forall|k: int| 0 <= k < without_spacers(rows).len() implies !(
    #[trigger] without_spacers(rows)[k] is SectionSpacer) by {
        rows.lemma_filter_pred(pred, k);
    }
}

/// A section popover shows no spacer rows: they only separate sections in
/// the expanded sidebar.
pub proof fn law_section_rows_have_no_spacers(rows: Seq<RowView>, section: CollapsedSidebarSection)
    ensures
        forall|k: int|
            0 <= k < section_rows(rows, section).len() ==> !(#[trigger] section_rows(
                rows,
                section,
            )[k] is SectionSpacer),
{
    let pinned = match section {
        CollapsedSidebarSection::Local => pinned_rows(rows, BranchSection::Local),
        CollapsedSidebarSection::Remote => pinned_rows(rows, BranchSection::Remote),
        _ => Seq::<RowView>::empty(),
    };
    assert forall|k: int| 0 <= k < pinned.len() implies !(#[trigger] pinned[k] is SectionSpacer) by {
        let bs = if section == CollapsedSidebarSection::Local {
            BranchSection::Local
        } else {
            BranchSection::Remote
        };
        match first_where(rows, |r: RowView| r == RowView::PinnedHeader { section: bs }) {
            Some(start) => {
                lemma_without_spacers_has_none(rows.subrange(start, section_end(rows, start)));
            },
            None => {},
        }
    }
    match first_where(rows, |r: RowView| header_matches(r, section)) {
        Some(start) => {
            let rest = without_spacers(rows.subrange(start + 1, section_end(rows, start)));
            lemma_without_spacers_has_none(rows.subrange(start + 1, section_end(rows, start)));
            assert forall|k: int| 0 <= k < section_rows(rows, section).len() implies !(
            #[trigger] section_rows(rows, section)[k] is SectionSpacer) by {
                if k >= pinned.len() {
                    assert(section_rows(rows, section)[k] == rest[k - pinned.len()]);
                } else {
                    assert(section_rows(rows, section)[k] == pinned[k]);
                }
            }
        },
        None => {},
    }
}

fn pinned_header_of(row: &BranchSidebarRow, section: BranchSection) -> (res: bool)
    ensures
        res == (row@ == RowView::PinnedHeader { section }),
{
    match row {
        BranchSidebarRow::PinnedHeader { section: s } => *s == section,
        _ => false,
    }
}

pub fn matches_section_header(row: &BranchSidebarRow, section: CollapsedSidebarSection) -> (res: bool)
    ensures
        res == header_matches(row@, section),
{
    match (row, section) {
        (
            BranchSidebarRow::SectionHeader { section: BranchSection::Local },
            CollapsedSidebarSection::Local,
        ) => true,
        (
            BranchSidebarRow::SectionHeader { section: BranchSection::Remote },
            CollapsedSidebarSection::Remote,
        ) => true,
        (BranchSidebarRow::WorktreesHeader, CollapsedSidebarSection::Worktrees) => true,
        (BranchSidebarRow::SubmodulesHeader, CollapsedSidebarSection::Submodules) => true,
        (BranchSidebarRow::StashHeader, CollapsedSidebarSection::Stashes) => true,
        _ => false,
    }
}

/// Where the section starting at row `start` ends.
fn section_end_exec(rows: &Vec<BranchSidebarRow>, start: usize) -> (res: usize)
    requires
        start < rows.len(),
    ensures
        res as int == section_end(rows_view(rows@), start as int),
        start < res <= rows.len(),
{
    let ghost rv = rows_view(rows@);
    let ghost tail = rv.skip(start + 1);
    let ghost p = |r: RowView| is_header_row(r);
    let mut i: usize = start + 1;
    while i < rows.len()
        invariant
            start < i <= rows.len(),
            rv == rows_view(rows@),
            tail == rv.skip(start + 1),
            p == (|r: RowView| is_header_row(r)),
            forall|j: int| 0 <= j < i - start - 1 ==> !p(#[trigger] tail[j]),
        decreases rows.len() - i,
    {
        if is_section_header(&rows[i]) {
            proof {
                assert(tail[i - start - 1] == rv[i as int]);
                assert(is_first_where(tail, p, i - start - 1));
                lemma_first_where_found(tail, p, i - start - 1);
            }
            return i;
        }
        assert(tail[i - start - 1] == rv[i as int]);
        i += 1;
    }
    proof {
        lemma_first_where_none(tail, p);
    }
    i
}

/// Appends the rows `from..to` that are not spacers.
fn append_without_spacers(
    out: &mut Vec<BranchSidebarRow>,
    rows: &Vec<BranchSidebarRow>,
    from: usize,
    to: usize,
)
    requires
        from <= to <= rows.len(),
    ensures
        rows_view(final(out)@) == rows_view(old(out)@) + without_spacers(
            rows_view(rows@).subrange(from as int, to as int),
        ),
{
    let ghost rv = rows_view(rows@);
    let ghost start = rows_view(out@);
    let ghost pred = |r: RowView| !(r is SectionSpacer);
    let mut k: usize = from;
    assert(rv.subrange(from as int, from as int) =~= Seq::<RowView>::empty());
    assert(without_spacers(Seq::<RowView>::empty()) =~= Seq::<RowView>::empty()) by {
        reveal(Seq::filter);
    }
    assert(start + Seq::<RowView>::empty() =~= start);
    while k < to
        invariant
            from <= k <= to <= rows.len(),
            rv == rows_view(rows@),
            pred == (|r: RowView| !(r is SectionSpacer)),
            rows_view(out@) == start + without_spacers(rv.subrange(from as int, k as int)),
        decreases to - k,
    {
        let ghost done = rv.subrange(from as int, k as int);
        assert(rv.subrange(from as int, k + 1) =~= done.push(rv[k as int]));
        proof {
            done.lemma_filter_push(rv[k as int], pred);
        }
        let is_spacer = match &rows[k] {
            BranchSidebarRow::SectionSpacer => true,
            _ => false,
        };
        if !is_spacer {
            let row = copy_row(&rows[k]);
            let ghost before = out@;
            out.push(row);
            proof {
                lemma_map_push(before, row, |r: BranchSidebarRow| r@);
                assert(start + done.filter(pred).push(rv[k as int]) =~= (start + done.filter(
                    pred,
                )).push(rv[k as int]));
            }
        }
        k += 1;
    }
}

/// The rows of a single pinned section (header and pinned branches) for the
/// given branch section.
pub fn pinned_section_rows(rows: &Vec<BranchSidebarRow>, branch_section: BranchSection) -> (res:
    Vec<BranchSidebarRow>)
    ensures
        rows_view(res@) == pinned_rows(rows_view(rows@), branch_section),
{
    let ghost rv = rows_view(rows@);
    let ghost p = |r: RowView| r == RowView::PinnedHeader { section: branch_section };
    let mut i: usize = 0;
    while i < rows.len()
        invariant
            i <= rows.len(),
            rv == rows_view(rows@),
            p == (|r: RowView| r == RowView::PinnedHeader { section: branch_section }),
            forall|j: int| 0 <= j < i ==> !p(#[trigger] rv[j]),
        decreases rows.len() - i,
    {
        if pinned_header_of(&rows[i], branch_section) {
            proof {
                assert(is_first_where(rv, p, i as int));
                lemma_first_where_found(rv, p, i as int);
            }
            let end = section_end_exec(rows, i);
            let mut out: Vec<BranchSidebarRow> = Vec::new();
            append_without_spacers(&mut out, rows, i, end);
            assert(rows_view(out@) =~= pinned_rows(rv, branch_section));
            return out;
        }
        i += 1;
    }
    proof {
        lemma_first_where_none(rv, p);
    }
    let out: Vec<BranchSidebarRow> = Vec::new();
    assert(rows_view(out@) =~= Seq::<RowView>::empty());
    out
}

/// The content rows belonging to `section` (between its header and the next
/// section header), with the header and inter-section spacers dropped; a
/// branch section is led by its pinned section.
pub fn section_content_rows(rows: &Vec<BranchSidebarRow>, section: CollapsedSidebarSection) -> (res:
    Vec<BranchSidebarRow>)
    ensures
        rows_view(res@) == section_rows(rows_view(rows@), section),
{
    let ghost rv = rows_view(rows@);
    let mut out = match section {
        CollapsedSidebarSection::Local => pinned_section_rows(rows, BranchSection::Local),
        CollapsedSidebarSection::Remote => pinned_section_rows(rows, BranchSection::Remote),
        _ => Vec::new(),
    };
    let ghost pinned = rows_view(out@);
    assert(pinned =~= match section {
        CollapsedSidebarSection::Local => pinned_rows(rv, BranchSection::Local),
        CollapsedSidebarSection::Remote => pinned_rows(rv, BranchSection::Remote),
        _ => Seq::<RowView>::empty(),
    });
    let ghost p = |r: RowView| header_matches(r, section);
    let mut i: usize = 0;
    while i < rows.len()
        invariant
            i <= rows.len(),
            rv == rows_view(rows@),
            p == (|r: RowView| header_matches(r, section)),
            forall|j: int| 0 <= j < i ==> !p(#[trigger] rv[j]),
            rows_view(out@) == pinned,
            pinned == match section {
                CollapsedSidebarSection::Local => pinned_rows(rv, BranchSection::Local),
                CollapsedSidebarSection::Remote => pinned_rows(rv, BranchSection::Remote),
                _ => Seq::<RowView>::empty(),
            },
        decreases rows.len() - i,
    {
        if matches_section_header(&rows[i], section) {
            proof {
                assert(is_first_where(rv, p, i as int));
                lemma_first_where_found(rv, p, i as int);
            }
            let end = section_end_exec(rows, i);
            append_without_spacers(&mut out, rows, i + 1, end);
            return out;
        }
        i += 1;
    }
    proof {
        lemma_first_where_none(rv, p);
    }
    out
}

/// Appends copies of all `rows`.
fn append_rows(out: &mut Vec<BranchSidebarRow>, rows: Vec<BranchSidebarRow>)
    ensures
        rows_view(final(out)@) == rows_view(old(out)@) + rows_view(rows@),
{
    let ghost start = rows_view(out@);
    let ghost rv = rows_view(rows@);
    let mut k: usize = 0;
    assert(start + rv.take(0) =~= start);
    while k < rows.len()
        invariant
            k <= rows.len(),
            rv == rows_view(rows@),
            rows_view(out@) == start + rv.take(k as int),
        decreases rows.len() - k,
    {
        let row = copy_row(&rows[k]);
        let ghost before = out@;
        out.push(row);
        proof {
            lemma_map_push(before, row, |r: BranchSidebarRow| r@);
            assert(start + rv.take(k + 1) =~= (start + rv.take(k as int)).push(rv[k as int]));
        }
        k += 1;
    }
    assert(rv.take(rv.len() as int) =~= rv);
}

/// The rows a popover filter shows: the open section's matches first,
/// followed by the other branch section's matches.
pub fn filter_result_rows(rows: &Vec<BranchSidebarRow>, section: CollapsedSidebarSection) -> (res:
    Vec<BranchSidebarRow>)
    ensures
        rows_view(res@) == filter_rows(rows_view(rows@), section),
{
    let primary = section_content_rows(rows, section);
    let other = match section.counterpart() {
        Some(o) => o,
        None => return primary,
    };
    let secondary = section_content_rows(rows, other);
    if secondary.len() == 0 {
        return primary;
    }
    let ghost pv = rows_view(primary@);
    let ghost sv = rows_view(secondary@);
    let mut out: Vec<BranchSidebarRow> = Vec::new();
    if primary.len() > 0 {
        match section.branch_section() {
            Some(bs) => {
                out.push(BranchSidebarRow::FilterGroupHeader { section: bs });
                assert(rows_view(out@) =~= seq![RowView::FilterGroupHeader { section: bs }]);
                append_rows(&mut out, primary);
                let ghost mid = out@;
                out.push(BranchSidebarRow::SectionSpacer);
                proof {
                    lemma_map_push(mid, BranchSidebarRow::SectionSpacer, |r: BranchSidebarRow| r@);
                }
            },
            None => {},
        }
    }
    let ghost lead = rows_view(out@);
    assert(lead =~= match section_branch_section(section) {
        Some(bs) => if pv.len() > 0 {
            seq![RowView::FilterGroupHeader { section: bs }] + pv + seq![RowView::SectionSpacer]
        } else {
            Seq::<RowView>::empty()
        },
        None => Seq::<RowView>::empty(),
    });
    match other.branch_section() {
        Some(obs) => {
            let ghost mid = out@;
            out.push(BranchSidebarRow::FilterGroupHeader { section: obs });
            proof {
                lemma_map_push(
                    mid,
                    BranchSidebarRow::FilterGroupHeader { section: obs },
                    |r: BranchSidebarRow| r@,
                );
            }
        },
        None => {},
    }
    let ghost with_header = rows_view(out@);
    assert(with_header =~= lead + match section_branch_section(other) {
        Some(obs) => seq![RowView::FilterGroupHeader { section: obs }],
        None => Seq::<RowView>::empty(),
    });
    append_rows(&mut out, secondary);
    assert(rows_view(out@) =~= filter_rows(rows_view(rows@), section));
    out
}


/// Data that is missing or failed to load, and so is asked for again.
pub open spec fn needs_load<T>(l: Loadable<T>) -> bool {
    l is NotLoaded || l is Error
}

/// The load a section popover asks for before it shows: submodules when
/// they are missing, the stash list (with worktrees) for Stashes, worktrees
/// for Worktrees, the file tree when it is missing; nothing for the branch
/// sections.
pub open spec fn section_data_msg<S, F>(
    section: CollapsedSidebarSection,
    repo_id: RepoId,
    submodules: Loadable<S>,
    file_entries: Loadable<F>,
    source: FileSourceView,
) -> Option<MsgView> {
    match section {
        CollapsedSidebarSection::Submodules => if needs_load(submodules) {
            Some(MsgView::LoadSubmodules { repo_id })
        } else {
            None
        },
        CollapsedSidebarSection::Stashes => Some(
            MsgView::EnsureSidebarData {
                repo_id,
                request: SidebarDataRequest { worktrees: true, submodules: false, stashes: true },
            },
        ),
        CollapsedSidebarSection::Worktrees => Some(
            MsgView::EnsureSidebarData {
                repo_id,
                request: SidebarDataRequest { worktrees: true, submodules: false, stashes: false },
            },
        ),
        CollapsedSidebarSection::Files => if needs_load(file_entries) {
            Some(MsgView::LoadFileBrowser { repo_id, source })
        } else {
            None
        },
        _ => None,
    }
}

/// The load to dispatch before a section popover of the active repository
/// shows, given what is loaded of its submodules and file tree.
pub fn ensure_collapsed_section_data<S, F>(
    section: CollapsedSidebarSection,
    repo_id: RepoId,
    submodules: &Loadable<S>,
    file_entries: &Loadable<F>,
    source: &FileSource,
) -> (res: Option<Msg>)
    ensures
        match res {
            Some(m) => section_data_msg(section, repo_id, *submodules, *file_entries, source@) == Some(m@),
            None => section_data_msg(section, repo_id, *submodules, *file_entries, source@) is None,
        },
{
    match section {
        CollapsedSidebarSection::Submodules => match submodules {
            Loadable::NotLoaded | Loadable::Error(_) => Some(Msg::LoadSubmodules { repo_id }),
            _ => None,
        },
        CollapsedSidebarSection::Stashes => Some(
            Msg::EnsureSidebarData {
                repo_id,
                request: SidebarDataRequest { worktrees: true, submodules: false, stashes: true },
            },
        ),
        CollapsedSidebarSection::Worktrees => Some(
            Msg::EnsureSidebarData {
                repo_id,
                request: SidebarDataRequest { worktrees: true, submodules: false, stashes: false },
            },
        ),
        CollapsedSidebarSection::Files => match file_entries {
            Loadable::NotLoaded | Loadable::Error(_) => Some(
                Msg::LoadFileBrowser { repo_id, source: copy_file_source(source) },
            ),
            _ => None,
        },
        _ => None,
    }
}

/// The collapsed rail's popover: which section it shows, and its filter.
pub struct CollapsedPopoverState {
    pub section: Option<CollapsedSidebarSection>,
    pub filter_open: bool,
    pub filter_query: String,
}

pub struct CollapsedPopoverView {
    pub section: Option<CollapsedSidebarSection>,
    pub filter_open: bool,
    pub filter_query: Seq<char>,
}

impl View for CollapsedPopoverState {
    type V = CollapsedPopoverView;

    open spec fn view(&self) -> CollapsedPopoverView {
        CollapsedPopoverView {
            section: self.section,
            filter_open: self.filter_open,
            filter_query: self.filter_query@,
        }
    }
}

/// The filter closed and its text dropped.
pub open spec fn reset_filter_spec(p: CollapsedPopoverView) -> CollapsedPopoverView {
    CollapsedPopoverView { filter_open: false, filter_query: Seq::empty(), ..p }
}

/// Showing or hiding the filter; hiding drops its text.
pub open spec fn toggle_filter_spec(p: CollapsedPopoverView) -> CollapsedPopoverView {
    if p.filter_open {
        reset_filter_spec(p)
    } else {
        CollapsedPopoverView { filter_open: true, ..p }
    }
}

/// Opening a section: a different one starts with the filter reset, the
/// same one keeps its state.
pub open spec fn set_section_spec(
    p: CollapsedPopoverView,
    section: Option<CollapsedSidebarSection>,
) -> CollapsedPopoverView {
    if p.section == section {
        p
    } else {
        reset_filter_spec(CollapsedPopoverView { section, ..p })
    }
}

/// The query the section's rows are filtered by: the trimmed filter text
/// while the filter is open, none otherwise.
pub open spec fn effective_query_spec(p: CollapsedPopoverView) -> Seq<char> {
    if p.filter_open {
        trim(p.filter_query)
    } else {
        Seq::empty()
    }
}

impl CollapsedPopoverState {
    /// No section open, filter closed and empty.
    pub fn new() -> (res: CollapsedPopoverState)
        ensures
            res@ == (CollapsedPopoverView { section: None, filter_open: false, filter_query: Seq::empty() }),
    {
        CollapsedPopoverState { section: None, filter_open: false, filter_query: String::new() }
    }

    /// Drops the filter text.
    pub fn clear_filter(&mut self)
        ensures
            final(self)@ == (CollapsedPopoverView { filter_query: Seq::empty(), ..old(self)@ }),
    {
        self.filter_query = String::new();
    }

    /// Closes the filter and drops its text.
    pub fn reset_filter(&mut self)
        ensures
            final(self)@ == reset_filter_spec(old(self)@),
    {
        self.clear_filter();
        self.filter_open = false;
    }

    /// Shows or hides the filter. Returns whether it opened, so its field
    /// takes the focus.
    pub fn toggle_filter(&mut self) -> (opened: bool)
        ensures
            final(self)@ == toggle_filter_spec(old(self)@),
            opened == !old(self)@.filter_open,
    {
        self.filter_open = !self.filter_open;
        if !self.filter_open {
            self.clear_filter();
        }
        self.filter_open
    }

    /// Opens another section, or none.
    pub fn set_section(&mut self, section: Option<CollapsedSidebarSection>)
        ensures
            final(self)@ == set_section_spec(old(self)@, section),
    {
        if self.section == section {
            return;
        }
        self.section = section;
        self.reset_filter();
    }

    /// The query the open section's rows are filtered by.
    pub fn effective_query(&self) -> (res: String)
        ensures
            res@ == effective_query_spec(self@),
    {
        if self.filter_open {
            trimmed(self.filter_query.as_str())
        } else {
            String::new()
        }
    }
}

/// A stale query never greets the next section: once the rail opens a
/// different section, its rows are filtered by nothing, and closing the
/// filter likewise brings every row back.
pub proof fn law_new_section_starts_unfiltered(
    p: CollapsedPopoverView,
    section: Option<CollapsedSidebarSection>,
)
    ensures
        section != p.section ==> effective_query_spec(set_section_spec(p, section)).len() == 0,
        p.filter_open ==> effective_query_spec(toggle_filter_spec(p)).len() == 0,
{
}

} // verus!
