//! The context menu of a commit row in the history view.
use vstd::prelude::*;
use crate::context_menu::{
    append_items, copy_rebase_entries, copy_source_colors, full_entry, full_entry_item, icon_entry,
    icon_entry_item, items_view, opt_view, push_item, rebase_entries_view, source_colors_view,
    ContextMenuAction, ContextMenuActionView, ContextMenuItem, ContextMenuItemView,
    ContextMenuModel, InteractiveRebaseEntry, InteractiveRebaseEntryView,
};
use crate::find::{first_where, is_first_where, lemma_first_where_found, lemma_first_where_none, lemma_map_push};
use crate::model::{
    find_repo_index, find_repo_view, AppStateView, BranchView, Commit, CommitView, DiffTarget,
    DiffTargetView, RepoId, RepoStateView,
};
use crate::permalink::{commit_permalink, commit_permalink_spec};
use crate::popover::{PopoverHost, PopoverKind, PopoverKindView, ResetMode};
use crate::search::{short_id, short_id_string};
use crate::text::{concat, push_all, push_str, str_eq, string_of};
use crate::virtual_branches::{decimal, decimal_string};

verus! {

/// What the commit menu learns from the history view and the rebase
/// machinery about the active repository.
pub struct CommitMenuFacts {
    /// The commit the active repository's HEAD points at.
    pub head_commit_id: Option<String>,
    /// A cherry-pick, revert, squash or rebase is in flight (or a merge waits
    /// to be concluded).
    pub history_rewrite_busy: bool,
    /// How many selected commits a squash folds, when the selection holding
    /// the commit can be squashed.
    pub squash_commit_count: Option<usize>,
    /// The selected commits, oldest first, with their graph colors, when the
    /// commit is part of a selection of several.
    pub cherry_pick_plan: Option<(Vec<InteractiveRebaseEntry>, Vec<(String, u8)>)>,
    /// How many commits an interactive rebase from the commit rewrites, when
    /// that count is exact.
    pub children_count: Option<usize>,
}

pub struct CommitMenuFactsView {
    pub head_commit_id: Option<Seq<char>>,
    pub history_rewrite_busy: bool,
    pub squash_commit_count: Option<usize>,
    pub cherry_pick_plan: Option<(Seq<InteractiveRebaseEntryView>, Seq<(Seq<char>, u8)>)>,
    pub children_count: Option<usize>,
}

impl View for CommitMenuFacts {
    type V = CommitMenuFactsView;

    open spec fn view(&self) -> CommitMenuFactsView {
        CommitMenuFactsView {
            head_commit_id: opt_view(self.head_commit_id),
            history_rewrite_busy: self.history_rewrite_busy,
            squash_commit_count: self.squash_commit_count,
            cherry_pick_plan: match self.cherry_pick_plan {
                Some((e, c)) => Some((rebase_entries_view(e@), source_colors_view(c@))),
                None => None,
            },
            children_count: self.children_count,
        }
    }
}

/// The repository the UI shows, when it is open.
pub open spec fn active_repo(state: AppStateView) -> Option<RepoStateView> {
    match state.active_repo {
        Some(id) => find_repo_view(state.repos, id),
        None => None,
    }
}

/// The menu is for the active repository.
pub open spec fn menu_is_active(state: AppStateView, repo_id: RepoId) -> bool {
    active_repo(state) matches Some(r) && r.id == repo_id
}

/// `author — summary` of the commit in the active repository's loaded
/// history; empty when it is not there.
pub open spec fn commit_summary(state: AppStateView, commit_id: Seq<char>) -> Seq<char> {
    match active_repo(state) {
        Some(repo) => match repo.log_commits {
            Some(commits) => match first_where(commits, |c: CommitView| c.id == commit_id) {
                Some(i) => commits[i].author + " — "@ + commits[i].summary,
                None => Seq::empty(),
            },
            None => Seq::empty(),
        },
        None => Seq::empty(),
    }
}

/// The names of the active repository's branches that point at the commit.
pub open spec fn branch_names_at(state: AppStateView, commit_id: Seq<char>) -> Seq<Seq<char>> {
    match active_repo(state) {
        Some(repo) => match repo.branches {
            Some(branches) => branches.filter(|b: BranchView| b.target == commit_id).map_values(
                |b: BranchView| b.name,
            ),
            None => Seq::empty(),
        },
        None => Seq::empty(),
    }
}

/// The names joined with `, `.
pub open spec fn join_names(names: Seq<Seq<char>>) -> Seq<char>
    decreases names.len(),
{
    if names.len() == 0 {
        Seq::empty()
    } else if names.len() == 1 {
        names[0]
    } else {
        join_names(names.drop_last()) + ", "@ + names.last()
    }
}

/// The menu title: the branches at the commit, or `Commit <short id>`.
pub open spec fn header_text(names: Seq<Seq<char>>, short: Seq<char>) -> Seq<char> {
    if names.len() == 0 {
        "Commit "@ + short
    } else {
        join_names(names)
    }
}

/// The checked-out branch of the active repository, or the short id when
/// detached or not loaded.
pub open spec fn current_branch_label(state: AppStateView, short: Seq<char>) -> Seq<char> {
    match active_repo(state) {
        Some(repo) => match repo.head_branch {
            Some(h) => if h.len() > 0 && h != "HEAD"@ {
                h
            } else {
                short
            },
            None => short,
        },
        None => short,
    }
}

pub open spec fn commit_target(commit_id: Seq<char>) -> DiffTargetView {
    DiffTargetView::Commit { commit_id, path: None }
}

/// The first part of the menu: the title, the summary when known, and the
/// squash and multi-commit cherry-pick entries when they apply.
pub open spec fn menu_head(
    state: AppStateView,
    repo_id: RepoId,
    commit_id: Seq<char>,
    facts: CommitMenuFactsView,
) -> Seq<ContextMenuItemView> {
    let short = short_id(commit_id);
    let active = menu_is_active(state, repo_id);
    let is_head = active && facts.head_commit_id == Some(commit_id);
    let disabled = active && facts.history_rewrite_busy;
    let summary = commit_summary(state, commit_id);
    let title = seq![ContextMenuItemView::Header(header_text(branch_names_at(state, commit_id), short))];
    let label = if summary.len() > 0 {
        seq![ContextMenuItemView::Label(summary)]
    } else {
        Seq::empty()
    };
    let squash = match (active, facts.squash_commit_count) {
        (true, Some(n)) => seq![
            full_entry(
                "Squash "@ + decimal(n as nat) + " commits"@,
                "icons/git_commit.svg"@,
                None,
                disabled,
                ContextMenuActionView::SquashSelectedCommits { repo_id },
            ),
            ContextMenuItemView::Separator,
        ],
        _ => Seq::empty(),
    };
    let plan = match (active && !is_head, facts.cherry_pick_plan) {
        (true, Some((entries, colors))) => seq![
            full_entry(
                "Cherry-pick "@ + decimal(entries.len()) + " commits…"@,
                "icons/arrow_up.svg"@,
                Some("P"@),
                disabled,
                ContextMenuActionView::OpenInteractiveCherryPickSetup {
                    repo_id,
                    entries,
                    source_colors: colors,
                },
            ),
            ContextMenuItemView::Separator,
        ],
        _ => Seq::empty(),
    };
    title + label + seq![ContextMenuItemView::Separator] + squash + plan
}

/// The viewing and comparison entries: open the diff, browse the tree, copy
/// the permalink when there is one, and mark or compare.
pub open spec fn menu_view_part(
    state: AppStateView,
    repo_id: RepoId,
    commit_id: Seq<char>,
) -> Seq<ContextMenuItemView> {
    let short = short_id(commit_id);
    let repo = find_repo_view(state.repos, repo_id);
    let permalink = match repo {
        Some(r) => match r.remotes {
            Some(remotes) => commit_permalink_spec(remotes, commit_id),
            None => None,
        },
        None => None,
    };
    let mark = match repo {
        Some(r) => r.comparison_mark,
        None => None,
    };
    let open = seq![
        icon_entry(
            "Open diff"@,
            "icons/open_external.svg"@,
            ContextMenuActionView::SelectDiff { repo_id, target: commit_target(commit_id) },
        ),
        icon_entry(
            "Browse repository at this point"@,
            "icons/history.svg"@,
            ContextMenuActionView::BrowseRepositoryAtCommit { repo_id, commit_id },
        ),
    ];
    let link = match permalink {
        Some(text) => seq![
            icon_entry("Copy commit permalink"@, "icons/copy.svg"@, ContextMenuActionView::CopyText { text }),
        ],
        None => Seq::empty(),
    };
    let compare = seq![
        icon_entry(
            "Mark "@ + short + " for comparison"@,
            "icons/git_commit.svg"@,
            ContextMenuActionView::MarkForComparison { repo_id, commit_id, label: short },
        ),
        icon_entry(
            "Compare with working tree"@,
            "icons/open_external.svg"@,
            ContextMenuActionView::CompareWithWorkingTree { repo_id, commit_id, label: short },
        ),
    ];
    let marked = match mark {
        Some((mark_commit, mark_label)) => if mark_commit != commit_id {
            seq![
                icon_entry(
                    "Compare with "@ + mark_label,
                    "icons/open_external.svg"@,
                    ContextMenuActionView::CompareWithMarked { repo_id, commit_id, label: short },
                ),
                icon_entry(
                    "Clear comparison mark"@,
                    "icons/generic_close.svg"@,
                    ContextMenuActionView::ClearComparisonMark { repo_id },
                ),
            ]
        } else {
            Seq::empty()
        },
        None => Seq::empty(),
    };
    open + link + compare + marked
}

/// Export, tag, checkout, cherry-pick (single commit, not HEAD) and revert.
pub open spec fn menu_action_part(
    state: AppStateView,
    repo_id: RepoId,
    commit_id: Seq<char>,
    facts: CommitMenuFactsView,
) -> Seq<ContextMenuItemView> {
    let active = menu_is_active(state, repo_id);
    let is_head = active && facts.head_commit_id == Some(commit_id);
    let disabled = active && facts.history_rewrite_busy;
    let has_plan = active && facts.cherry_pick_plan is Some;
    let common = seq![
        icon_entry(
            "Export patch…"@,
            "icons/arrow_down.svg"@,
            ContextMenuActionView::ExportPatch { repo_id, commit_id },
        ),
        full_entry(
            "Add tag…"@,
            "icons/tag.svg"@,
            Some("T"@),
            false,
            ContextMenuActionView::OpenPopover {
                kind: PopoverKindView::CreateTagPrompt { repo_id, target: commit_id },
            },
        ),
        full_entry(
            "Checkout (detached)"@,
            "icons/git_branch.svg"@,
            Some("D"@),
            false,
            ContextMenuActionView::CheckoutCommit { repo_id, commit_id },
        ),
    ];
    let pick = if !has_plan && !is_head {
        seq![
            full_entry(
                "Cherry-pick"@,
                "icons/arrow_up.svg"@,
                Some("P"@),
                disabled,
                ContextMenuActionView::CherryPickCommit { repo_id, commit_id },
            ),
        ]
    } else {
        Seq::empty()
    };
    let revert = seq![
        full_entry(
            "Revert"@,
            "icons/undo.svg"@,
            Some("R"@),
            disabled,
            ContextMenuActionView::RevertCommit { repo_id, commit_id },
        ),
    ];
    common + pick + revert
}

/// The interactive rebase label: the number of commits it rewrites when
/// exact, else the branch and target it rebases.
pub open spec fn irebase_label(
    children: Option<usize>,
    short: Seq<char>,
    current: Seq<char>,
    target: Seq<char>,
) -> Seq<char> {
    match children {
        Some(n) => "Interactive rebase "@ + decimal(n as nat) + (if n == 1 {
            " child"@
        } else {
            " children"@
        }) + " of "@ + short,
        None => "Interactive rebase "@ + current + " onto "@ + target,
    }
}

/// The rebase entries, except on the HEAD commit: rebase the current branch
/// onto the commit (named by its first branch when it has one) and start an
/// interactive rebase from it.
pub open spec fn menu_rebase_part(
    state: AppStateView,
    repo_id: RepoId,
    commit_id: Seq<char>,
    facts: CommitMenuFactsView,
) -> Seq<ContextMenuItemView> {
    let short = short_id(commit_id);
    let active = menu_is_active(state, repo_id);
    let is_head = active && facts.head_commit_id == Some(commit_id);
    let disabled = active && facts.history_rewrite_busy;
    let names = branch_names_at(state, commit_id);
    let current = current_branch_label(state, short);
    let target_label = if names.len() > 0 {
        names[0]
    } else {
        short
    };
    let onto = if names.len() > 0 {
        names[0]
    } else {
        commit_id
    };
    let children = if active {
        facts.children_count
    } else {
        None
    };
    if is_head {
        Seq::empty()
    } else {
        seq![
            full_entry(
                "Rebase "@ + current + " onto "@ + target_label,
                "icons/arrow_up.svg"@,
                Some("B"@),
                disabled,
                ContextMenuActionView::OpenPopover {
                    kind: PopoverKindView::RebaseOntoConfirm { repo_id, onto },
                },
            ),
            full_entry(
                irebase_label(children, short, current, target_label),
                "icons/refresh.svg"@,
                Some("I"@),
                disabled,
                ContextMenuActionView::LoadInteractiveRebaseSetup { repo_id, base: commit_id },
            ),
        ]
    }
}

pub open spec fn reset_entry(label: Seq<char>, repo_id: RepoId, commit_id: Seq<char>, mode: ResetMode) -> ContextMenuItemView {
    icon_entry(
        label,
        "icons/refresh.svg"@,
        ContextMenuActionView::OpenPopover {
            kind: PopoverKindView::ResetPrompt { repo_id, target: commit_id, mode },
        },
    )
}

/// A separator and the three reset entries.
pub open spec fn menu_reset_part(repo_id: RepoId, commit_id: Seq<char>) -> Seq<ContextMenuItemView> {
    seq![
        ContextMenuItemView::Separator,
        reset_entry("Reset (--soft) to here"@, repo_id, commit_id, ResetMode::Soft),
        reset_entry("Reset (--mixed) to here"@, repo_id, commit_id, ResetMode::Mixed),
        reset_entry("Reset (--hard) to here"@, repo_id, commit_id, ResetMode::Hard),
    ]
}

/// The whole commit menu.
pub open spec fn commit_menu(
    state: AppStateView,
    repo_id: RepoId,
    commit_id: Seq<char>,
    facts: CommitMenuFactsView,
) -> Seq<ContextMenuItemView> {
    menu_head(state, repo_id, commit_id, facts) + menu_view_part(state, repo_id, commit_id)
        + menu_action_part(state, repo_id, commit_id, facts) + menu_rebase_part(
        state,
        repo_id,
        commit_id,
        facts,
    ) + menu_reset_part(repo_id, commit_id)
}

/// The index of the active repository.
fn active_repo_index(this: &PopoverHost) -> (res: Option<usize>)
    ensures
        match res {
            Some(ix) => ix < this.state.repos@.len() && active_repo(this@.state) == Some(
                this.state.repos@[ix as int]@,
            ),
            None => active_repo(this@.state) is None,
        },
{
    match this.state.active_repo {
        Some(id) => match find_repo_index(&this.state.repos, id) {
            Some(ix) => {
                assert(this@.state.repos[ix as int] == this.state.repos@[ix as int]@);
                Some(ix)
            },
            None => None,
        },
        None => None,
    }
}

fn menu_is_active_exec(this: &PopoverHost, repo_id: RepoId) -> (res: bool)
    ensures
        res == menu_is_active(this@.state, repo_id),
{
    match active_repo_index(this) {
        Some(ix) => this.state.repos[ix].id.0 == repo_id.0,
        None => false,
    }
}

fn commit_summary_exec(this: &PopoverHost, commit_id: &str) -> (res: String)
    ensures
        res@ == commit_summary(this@.state, commit_id@),
{
    let ix = match active_repo_index(this) {
        Some(ix) => ix,
        None => return String::new(),
    };
    let repo = &this.state.repos[ix];
    let commits = match &repo.log_commits {
        Some(c) => c,
        None => return String::new(),
    };
    let ghost cv = crate::model::commits_view(commits@);
    let ghost p = |c: CommitView| c.id == commit_id@;
    assert(active_repo(this@.state) == Some(repo@));
    assert(repo@.log_commits == Some(cv));
    let mut i: usize = 0;
    while i < commits.len()
        invariant
            i <= commits.len(),
            active_repo(this@.state) == Some(repo@),
            repo@.log_commits == Some(cv),
            cv == crate::model::commits_view(commits@),
            p == (|c: CommitView| c.id == commit_id@),
            forall|j: int| 0 <= j < i ==> !p(#[trigger] cv[j]),
        decreases commits.len() - i,
    {
        if str_eq(commits[i].id.as_str(), commit_id) {
            proof {
                assert(is_first_where(cv, p, i as int));
                lemma_first_where_found(cv, p, i as int);
            }
            let a = concat(commits[i].author.as_str(), " — ");
            return concat(a.as_str(), commits[i].summary.as_str());
        }
        i += 1;
    }
    proof {
        lemma_first_where_none(cv, p);
    }
    String::new()
}

fn branch_names_exec(this: &PopoverHost, commit_id: &str) -> (res: Vec<String>)
    ensures
        res@.map_values(|s: String| s@) == branch_names_at(this@.state, commit_id@),
{
    let ix = match active_repo_index(this) {
        Some(ix) => ix,
        None => return Vec::new(),
    };
    let repo = &this.state.repos[ix];
    let branches = match &repo.branches {
        Some(b) => b,
        None => return Vec::new(),
    };
    let ghost bv = branches@.map_values(|b: crate::model::Branch| b@);
    let ghost pred = |b: BranchView| b.target == commit_id@;
    let mut out: Vec<String> = Vec::new();
    let mut i: usize = 0;
    while i < branches.len()
        invariant
            i <= branches.len(),
            bv == branches@.map_values(|b: crate::model::Branch| b@),
            pred == (|b: BranchView| b.target == commit_id@),
            out@.map_values(|s: String| s@) == bv.take(i as int).filter(pred).map_values(
                |b: BranchView| b.name,
            ),
        decreases branches.len() - i,
    {
        let ghost done = bv.take(i as int);
        assert(bv.take(i + 1) =~= done.push(bv[i as int]));
        proof {
            done.lemma_filter_push(bv[i as int], pred);
        }
        if str_eq(branches[i].target.as_str(), commit_id) {
            let name = branches[i].name.clone();
            let ghost before = out@;
            out.push(name);
            proof {
                lemma_map_push(before, name, |s: String| s@);
                lemma_map_push(done.filter(pred), bv[i as int], |b: BranchView| b.name);
            }
        }
        i += 1;
    }
    assert(bv.take(bv.len() as int) =~= bv);
    out
}

fn join_names_exec(names: &Vec<String>) -> (res: String)
    ensures
        res@ == join_names(names@.map_values(|s: String| s@)),
{
    let ghost nv = names@.map_values(|s: String| s@);
    let mut out: Vec<char> = Vec::new();
    let mut i: usize = 0;
    while i < names.len()
        invariant
            i <= names.len(),
            nv == names@.map_values(|s: String| s@),
            out@ == join_names(nv.take(i as int)),
        decreases names.len() - i,
    {
        assert(nv.take(i + 1).drop_last() =~= nv.take(i as int));
        if i > 0 {
            push_str(&mut out, ", ");
        }
        push_str(&mut out, names[i].as_str());
        assert(out@ =~= join_names(nv.take(i + 1)));
        i += 1;
    }
    assert(nv.take(nv.len() as int) =~= nv);
    string_of(&out)
}

pub(crate) fn numbered_label(prefix: &str, n: usize, suffix: &str) -> (res: String)
    ensures
        res@ == prefix@ + decimal(n as nat) + suffix@,
{
    let mut chars: Vec<char> = Vec::new();
    push_str(&mut chars, prefix);
    let digits = decimal_string(n as u64);
    push_all(&mut chars, &digits);
    push_str(&mut chars, suffix);
    string_of(&chars)
}

fn head_items(this: &PopoverHost, repo_id: RepoId, commit_id: &str, facts: &CommitMenuFacts) -> (res:
    Vec<ContextMenuItem>)
    ensures
        items_view(res@) == menu_head(this@.state, repo_id, commit_id@, facts@),
{
    let short = short_id_string(commit_id);
    let active = menu_is_active_exec(this, repo_id);
    let is_head = active && match &facts.head_commit_id {
        Some(h) => str_eq(h.as_str(), commit_id),
        None => false,
    };
    let disabled = active && facts.history_rewrite_busy;
    let names = branch_names_exec(this, commit_id);
    let title = if names.len() == 0 {
        concat("Commit ", short.as_str())
    } else {
        join_names_exec(&names)
    };
    let summary = commit_summary_exec(this, commit_id);
    let mut items: Vec<ContextMenuItem> = Vec::new();
    push_item(&mut items, ContextMenuItem::Header(title));
    if !summary.as_str().is_empty() {
        push_item(&mut items, ContextMenuItem::Label(summary));
    }
    push_item(&mut items, ContextMenuItem::Separator);
    let ghost top = items_view(items@);
    if active {
        match facts.squash_commit_count {
            Some(n) => {
                push_item(
                    &mut items,
                    full_entry_item(
                        numbered_label("Squash ", n, " commits"),
                        "icons/git_commit.svg",
                        None,
                        disabled,
                        ContextMenuAction::SquashSelectedCommits { repo_id },
                    ),
                );
                push_item(&mut items, ContextMenuItem::Separator);
            },
            None => {},
        }
    }
    let ghost with_squash = items_view(items@);
    if active && !is_head {
        match &facts.cherry_pick_plan {
            Some((entries, colors)) => {
                push_item(
                    &mut items,
                    full_entry_item(
                        numbered_label("Cherry-pick ", entries.len(), " commits…"),
                        "icons/arrow_up.svg",
                        Some("P"),
                        disabled,
                        ContextMenuAction::OpenInteractiveCherryPickSetup {
                            repo_id,
                            entries: copy_rebase_entries(entries),
                            source_colors: copy_source_colors(colors),
                        },
                    ),
                );
                push_item(&mut items, ContextMenuItem::Separator);
            },
            None => {},
        }
    }
    assert(items_view(items@) =~= menu_head(this@.state, repo_id, commit_id@, facts@));
    items
}

fn view_items(this: &PopoverHost, repo_id: RepoId, commit_id: &str) -> (res: Vec<ContextMenuItem>)
    ensures
        items_view(res@) == menu_view_part(this@.state, repo_id, commit_id@),
{
    let short = short_id_string(commit_id);
    let repo_ix = find_repo_index(&this.state.repos, repo_id);
    let mut items: Vec<ContextMenuItem> = Vec::new();
    push_item(
        &mut items,
        icon_entry_item(
            "Open diff".to_owned(),
            "icons/open_external.svg",
            ContextMenuAction::SelectDiff {
                repo_id,
                target: DiffTarget::Commit { commit_id: commit_id.to_owned(), path: None },
            },
        ),
    );
    push_item(
        &mut items,
        icon_entry_item(
            "Browse repository at this point".to_owned(),
            "icons/history.svg",
            ContextMenuAction::BrowseRepositoryAtCommit { repo_id, commit_id: commit_id.to_owned() },
        ),
    );
    let ghost open = items_view(items@);
    let permalink = match repo_ix {
        Some(ix) => {
            assert(this@.state.repos[ix as int] == this.state.repos@[ix as int]@);
            match &this.state.repos[ix].remotes {
                Some(remotes) => commit_permalink(remotes.as_slice(), commit_id),
                None => None,
            }
        },
        None => None,
    };
    match permalink {
        Some(text) => {
            push_item(
                &mut items,
                icon_entry_item(
                    "Copy commit permalink".to_owned(),
                    "icons/copy.svg",
                    ContextMenuAction::CopyText { text },
                ),
            );
        },
        None => {},
    }
    let ghost with_link = items_view(items@);
    let mark_label = concat("Mark ", short.as_str());
    push_item(
        &mut items,
        icon_entry_item(
            concat(mark_label.as_str(), " for comparison"),
            "icons/git_commit.svg",
            ContextMenuAction::MarkForComparison {
                repo_id,
                commit_id: commit_id.to_owned(),
                label: short.clone(),
            },
        ),
    );
    push_item(
        &mut items,
        icon_entry_item(
            "Compare with working tree".to_owned(),
            "icons/open_external.svg",
            ContextMenuAction::CompareWithWorkingTree {
                repo_id,
                commit_id: commit_id.to_owned(),
                label: short.clone(),
            },
        ),
    );
    let ghost with_compare = items_view(items@);
    match repo_ix {
        Some(ix) => match &this.state.repos[ix].comparison_mark {
            Some(mark) => {
                if !str_eq(mark.commit_id.as_str(), commit_id) {
                    push_item(
                        &mut items,
                        icon_entry_item(
                            concat("Compare with ", mark.label.as_str()),
                            "icons/open_external.svg",
                            ContextMenuAction::CompareWithMarked {
                                repo_id,
                                commit_id: commit_id.to_owned(),
                                label: short.clone(),
                            },
                        ),
                    );
                    push_item(
                        &mut items,
                        icon_entry_item(
                            "Clear comparison mark".to_owned(),
                            "icons/generic_close.svg",
                            ContextMenuAction::ClearComparisonMark { repo_id },
                        ),
                    );
                }
            },
            None => {},
        },
        None => {},
    }
    assert(items_view(items@) =~= menu_view_part(this@.state, repo_id, commit_id@));
    items
}

fn action_items(this: &PopoverHost, repo_id: RepoId, commit_id: &str, facts: &CommitMenuFacts) -> (res:
    Vec<ContextMenuItem>)
    ensures
        items_view(res@) == menu_action_part(this@.state, repo_id, commit_id@, facts@),
{
    let active = menu_is_active_exec(this, repo_id);
    let is_head = active && match &facts.head_commit_id {
        Some(h) => str_eq(h.as_str(), commit_id),
        None => false,
    };
    let disabled = active && facts.history_rewrite_busy;
    let has_plan = active && facts.cherry_pick_plan.is_some();
    let mut items: Vec<ContextMenuItem> = Vec::new();
    push_item(
        &mut items,
        icon_entry_item(
            "Export patch…".to_owned(),
            "icons/arrow_down.svg",
            ContextMenuAction::ExportPatch { repo_id, commit_id: commit_id.to_owned() },
        ),
    );
    push_item(
        &mut items,
        full_entry_item(
            "Add tag…".to_owned(),
            "icons/tag.svg",
            Some("T"),
            false,
            ContextMenuAction::OpenPopover {
                kind: PopoverKind::CreateTagPrompt { repo_id, target: commit_id.to_owned() },
            },
        ),
    );
    push_item(
        &mut items,
        full_entry_item(
            "Checkout (detached)".to_owned(),
            "icons/git_branch.svg",
            Some("D"),
            false,
            ContextMenuAction::CheckoutCommit { repo_id, commit_id: commit_id.to_owned() },
        ),
    );
    let ghost common = items_view(items@);
    if !has_plan && !is_head {
        push_item(
            &mut items,
            full_entry_item(
                "Cherry-pick".to_owned(),
                "icons/arrow_up.svg",
                Some("P"),
                disabled,
                ContextMenuAction::CherryPickCommit { repo_id, commit_id: commit_id.to_owned() },
            ),
        );
    }
    push_item(
        &mut items,
        full_entry_item(
            "Revert".to_owned(),
            "icons/undo.svg",
            Some("R"),
            disabled,
            ContextMenuAction::RevertCommit { repo_id, commit_id: commit_id.to_owned() },
        ),
    );
    assert(items_view(items@) =~= menu_action_part(this@.state, repo_id, commit_id@, facts@));
    items
}

fn current_branch_exec(this: &PopoverHost, short: &String) -> (res: String)
    ensures
        res@ == current_branch_label(this@.state, short@),
{
    match active_repo_index(this) {
        Some(ix) => match &this.state.repos[ix].head_branch {
            Some(h) => {
                if !h.as_str().is_empty() && !str_eq(h.as_str(), "HEAD") {
                    h.clone()
                } else {
                    short.clone()
                }
            },
            None => short.clone(),
        },
        None => short.clone(),
    }
}

fn rebase_items(this: &PopoverHost, repo_id: RepoId, commit_id: &str, facts: &CommitMenuFacts) -> (res:
    Vec<ContextMenuItem>)
    ensures
        items_view(res@) == menu_rebase_part(this@.state, repo_id, commit_id@, facts@),
{
    let short = short_id_string(commit_id);
    let active = menu_is_active_exec(this, repo_id);
    let is_head = active && match &facts.head_commit_id {
        Some(h) => str_eq(h.as_str(), commit_id),
        None => false,
    };
    let mut items: Vec<ContextMenuItem> = Vec::new();
    if is_head {
        assert(items_view(items@) =~= Seq::<ContextMenuItemView>::empty());
        return items;
    }
    let disabled = active && facts.history_rewrite_busy;
    let names = branch_names_exec(this, commit_id);
    let current = current_branch_exec(this, &short);
    let target_label = if names.len() > 0 {
        names[0].clone()
    } else {
        short.clone()
    };
    let onto = if names.len() > 0 {
        names[0].clone()
    } else {
        commit_id.to_owned()
    };
    let children = if active {
        facts.children_count
    } else {
        None
    };
    let rebase_a = concat("Rebase ", current.as_str());
    let rebase_b = concat(rebase_a.as_str(), " onto ");
    push_item(
        &mut items,
        full_entry_item(
            concat(rebase_b.as_str(), target_label.as_str()),
            "icons/arrow_up.svg",
            Some("B"),
            disabled,
            ContextMenuAction::OpenPopover { kind: PopoverKind::RebaseOntoConfirm { repo_id, onto } },
        ),
    );
    let label = match children {
        Some(n) => {
            let noun = if n == 1 {
                " child"
            } else {
                " children"
            };
            let counted = numbered_label("Interactive rebase ", n, noun);
            let with_of = concat(counted.as_str(), " of ");
            concat(with_of.as_str(), short.as_str())
        },
        None => {
            let a = concat("Interactive rebase ", current.as_str());
            let b = concat(a.as_str(), " onto ");
            concat(b.as_str(), target_label.as_str())
        },
    };
    push_item(
        &mut items,
        full_entry_item(
            label,
            "icons/refresh.svg",
            Some("I"),
            disabled,
            ContextMenuAction::LoadInteractiveRebaseSetup { repo_id, base: commit_id.to_owned() },
        ),
    );
    assert(items_view(items@) =~= menu_rebase_part(this@.state, repo_id, commit_id@, facts@));
    items
}

fn reset_items(repo_id: RepoId, commit_id: &str) -> (res: Vec<ContextMenuItem>)
    ensures
        items_view(res@) == menu_reset_part(repo_id, commit_id@),
{
    let mut items: Vec<ContextMenuItem> = Vec::new();
    push_item(&mut items, ContextMenuItem::Separator);
    push_item(
        &mut items,
        icon_entry_item(
            "Reset (--soft) to here".to_owned(),
            "icons/refresh.svg",
            ContextMenuAction::OpenPopover {
                kind: PopoverKind::ResetPrompt {
                    repo_id,
                    target: commit_id.to_owned(),
                    mode: ResetMode::Soft,
                },
            },
        ),
    );
    push_item(
        &mut items,
        icon_entry_item(
            "Reset (--mixed) to here".to_owned(),
            "icons/refresh.svg",
            ContextMenuAction::OpenPopover {
                kind: PopoverKind::ResetPrompt {
                    repo_id,
                    target: commit_id.to_owned(),
                    mode: ResetMode::Mixed,
                },
            },
        ),
    );
    push_item(
        &mut items,
        icon_entry_item(
            "Reset (--hard) to here".to_owned(),
            "icons/refresh.svg",
            ContextMenuAction::OpenPopover {
                kind: PopoverKind::ResetPrompt {
                    repo_id,
                    target: commit_id.to_owned(),
                    mode: ResetMode::Hard,
                },
            },
        ),
    );
    assert(items_view(items@) =~= menu_reset_part(repo_id, commit_id@));
    items
}

/// The context menu of commit `commit_id` of repository `repo_id`.
pub fn model(this: &PopoverHost, repo_id: RepoId, commit_id: &str, facts: &CommitMenuFacts) -> (res:
    ContextMenuModel)
    ensures
        res@ == commit_menu(this@.state, repo_id, commit_id@, facts@),
{
    let mut items = head_items(this, repo_id, commit_id, facts);
    append_items(&mut items, view_items(this, repo_id, commit_id));
    append_items(&mut items, action_items(this, repo_id, commit_id, facts));
    append_items(&mut items, rebase_items(this, repo_id, commit_id, facts));
    append_items(&mut items, reset_items(repo_id, commit_id));
    ContextMenuModel::new(items)
}

/// The selection holds several commits, the menu's commit among them.
pub open spec fn selection_covers(selection: Seq<Seq<char>>, commit_id: Seq<char>) -> bool {
    selection.len() > 1 && selection.contains(commit_id)
}

/// The positions of the loaded page whose commits are selected, in page order.
pub open spec fn selected_positions(commits: Seq<CommitView>, selection: Seq<Seq<char>>) -> Seq<int>
    decreases commits.len(),
{
    if commits.len() == 0 {
        Seq::empty()
    } else {
        let prev = selected_positions(commits.drop_last(), selection);
        if selection.contains(commits.last().id) {
            prev.push(commits.len() - 1)
        } else {
            prev
        }
    }
}

/// The plan entry of a commit: pick it, with its summary as its message.
pub open spec fn pick_entry(c: CommitView) -> InteractiveRebaseEntryView {
    InteractiveRebaseEntryView {
        action: crate::context_menu::InteractiveRebaseAction::Pick,
        commit_id: c.id,
        summary: c.summary,
        message: c.summary,
        new_message: None,
    }
}

/// The color of page row `ix` in the history graph (0 past its end).
pub open spec fn row_color(colors: Seq<u8>, ix: int) -> u8 {
    if 0 <= ix < colors.len() {
        colors[ix]
    } else {
        0
    }
}

/// The cherry-pick plan of a multi-selection: when the menu is for the
/// active repository, its history has loaded, the selection holds several
/// commits including the menu's one, and at least two of them are on the
/// page: those commits oldest first (the page reversed), each picked, with
/// its graph color.
pub open spec fn cherry_pick_plan_spec(
    state: AppStateView,
    repo_id: RepoId,
    commit_id: Seq<char>,
    selection: Seq<Seq<char>>,
    colors: Seq<u8>,
) -> Option<(Seq<InteractiveRebaseEntryView>, Seq<(Seq<char>, u8)>)> {
    if !menu_is_active(state, repo_id) || !selection_covers(selection, commit_id) {
        None
    } else {
        match active_repo(state) {
            Some(repo) => match repo.log_commits {
                Some(commits) => {
                    let picked = selected_positions(commits, selection).reverse();
                    if picked.len() < 2 {
                        None
                    } else {
                        Some(
                            (
                                picked.map_values(|ix: int| pick_entry(commits[ix])),
                                picked.map_values(|ix: int| (commits[ix].id, row_color(colors, ix))),
                            ),
                        )
                    }
                },
                None => None,
            },
            None => None,
        }
    }
}

fn contains_id(selection: &Vec<String>, id: &str) -> (res: bool)
    ensures
        res == selection@.map_values(|s: String| s@).contains(id@),
{
    let ghost sv = selection@.map_values(|s: String| s@);
    let mut i: usize = 0;
    while i < selection.len()
        invariant
            i <= selection.len(),
            sv == selection@.map_values(|s: String| s@),
            forall|j: int| 0 <= j < i ==> sv[j] != id@,
        decreases selection.len() - i,
    {
        if str_eq(selection[i].as_str(), id) {
            assert(sv[i as int] == id@);
            return true;
        }
        i += 1;
    }
    false
}

proof fn lemma_selected_positions_bounds(commits: Seq<CommitView>, selection: Seq<Seq<char>>)
    ensures
        forall|k: int|
            0 <= k < selected_positions(commits, selection).len() ==> 0 <= #[trigger] selected_positions(
                commits,
                selection,
            )[k] < commits.len(),
        selected_positions(commits, selection).len() <= commits.len(),
    decreases commits.len(),
{
    if commits.len() > 0 {
        lemma_selected_positions_bounds(commits.drop_last(), selection);
    }
}

/// The cherry-pick plan of the history multi-selection `selection`;
/// `graph_colors` holds the history graph's node color of each page row.
pub fn multi_cherry_pick_plan(
    this: &PopoverHost,
    repo_id: RepoId,
    commit_id: &str,
    selection: &Vec<String>,
    graph_colors: &Vec<u8>,
) -> (res: Option<(Vec<InteractiveRebaseEntry>, Vec<(String, u8)>)>)
    ensures
        match res {
            Some((entries, colors)) => cherry_pick_plan_spec(
                this@.state,
                repo_id,
                commit_id@,
                selection@.map_values(|s: String| s@),
                graph_colors@,
            ) == Some((rebase_entries_view(entries@), source_colors_view(colors@))),
            None => cherry_pick_plan_spec(
                this@.state,
                repo_id,
                commit_id@,
                selection@.map_values(|s: String| s@),
                graph_colors@,
            ) is None,
        },
{
    let ghost sel = selection@.map_values(|s: String| s@);
    if !menu_is_active_exec(this, repo_id) || !(selection.len() > 1 && contains_id(selection, commit_id)) {
        return None;
    }
    let ix = match active_repo_index(this) {
        Some(ix) => ix,
        None => return None,
    };
    let commits = match &this.state.repos[ix].log_commits {
        Some(c) => c,
        None => return None,
    };
    let ghost cv = crate::model::commits_view(commits@);
    let mut positions: Vec<usize> = Vec::new();
    let mut i: usize = 0;
    while i < commits.len()
        invariant
            i <= commits.len(),
            cv == crate::model::commits_view(commits@),
            sel == selection@.map_values(|s: String| s@),
            positions@.map_values(|p: usize| p as int) == selected_positions(cv.take(i as int), sel),
        decreases commits.len() - i,
    {
        assert(cv.take(i + 1).drop_last() =~= cv.take(i as int));
        assert(cv.take(i + 1).last() == cv[i as int]);
        if contains_id(selection, commits[i].id.as_str()) {
            let ghost before = positions@;
            positions.push(i);
            proof {
                lemma_map_push(before, i, |p: usize| p as int);
            }
        }
        i += 1;
    }
    assert(cv.take(cv.len() as int) =~= cv);
    let ghost picked = selected_positions(cv, sel).reverse();
    proof {
        lemma_selected_positions_bounds(cv, sel);
    }
    if positions.len() < 2 {
        return None;
    }
    let mut entries: Vec<InteractiveRebaseEntry> = Vec::new();
    let mut colors: Vec<(String, u8)> = Vec::new();
    let n = positions.len();
    let mut k: usize = 0;
    while k < n
        invariant
            k <= n,
            n == positions.len(),
            cv == crate::model::commits_view(commits@),
            picked == selected_positions(cv, sel).reverse(),
            positions@.map_values(|p: usize| p as int) == selected_positions(cv, sel),
            forall|j: int| 0 <= j < picked.len() ==> 0 <= #[trigger] picked[j] < cv.len(),
            rebase_entries_view(entries@) == picked.take(k as int).map_values(
                |ix: int| pick_entry(cv[ix]),
            ),
            source_colors_view(colors@) == picked.take(k as int).map_values(
                |ix: int| (cv[ix].id, row_color(graph_colors@, ix)),
            ),
        decreases n - k,
    {
        let p = positions[n - 1 - k];
        assert(picked[k as int] == p as int);
        assert(0 <= picked[k as int] < cv.len());
        let c = &commits[p];
        let entry = InteractiveRebaseEntry {
            action: crate::context_menu::InteractiveRebaseAction::Pick,
            commit_id: c.id.clone(),
            summary: c.summary.clone(),
            message: c.summary.clone(),
            new_message: None,
        };
        let color: u8 = if p < graph_colors.len() {
            graph_colors[p]
        } else {
            0
        };
        let ghost before_e = entries@;
        let ghost before_c = colors@;
        entries.push(entry);
        let pair = (c.id.clone(), color);
        colors.push(pair);
        proof {
            assert(picked.take(k + 1) =~= picked.take(k as int).push(picked[k as int]));
            lemma_map_push(before_e, entry, |e: InteractiveRebaseEntry| e@);
            lemma_map_push(before_c, pair, |c: (String, u8)| (c.0@, c.1));
            lemma_map_push(picked.take(k as int), picked[k as int], |ix: int| pick_entry(cv[ix]));
            lemma_map_push(
                picked.take(k as int),
                picked[k as int],
                |ix: int| (cv[ix].id, row_color(graph_colors@, ix)),
            );
        }
        k += 1;
    }
    assert(picked.take(n as int) =~= picked);
    Some((entries, colors))
}


proof fn lemma_join_names_contains(names: Seq<Seq<char>>, j: int)
    requires
        0 <= j < names.len(),
    ensures
        crate::text::contains_seq(join_names(names), names[j]),
    decreases names.len(),
{
    let joined = join_names(names);
    if names.len() == 1 {
        assert(joined.subrange(0, names[0].len() as int) =~= names[0]);
        assert(crate::text::occurs_at(joined, names[0], 0));
    } else if j == names.len() - 1 {
        let start = joined.len() - names.last().len();
        assert(joined.subrange(start, joined.len() as int) =~= names.last());
        assert(crate::text::occurs_at(joined, names[j], start));
    } else {
        let init = names.drop_last();
        lemma_join_names_contains(init, j);
        let k = choose|k: int| crate::text::occurs_at(join_names(init), init[j], k);
        assert(joined.subrange(k, k + names[j].len()) =~= join_names(init).subrange(
            k,
            k + names[j].len(),
        ));
        assert(crate::text::occurs_at(joined, names[j], k));
    }
}

/// The commit menu is titled by every branch that points at the commit:
/// each local branch of the active repository whose target is the commit is
/// named in the title, whatever other branches point there too.
pub proof fn law_commit_menu_title_names_every_branch(
    state: AppStateView,
    repo_id: RepoId,
    commit_id: Seq<char>,
    facts: CommitMenuFactsView,
    i: int,
)
    requires
        active_repo(state) matches Some(repo) && repo.branches matches Some(bs) && 0 <= i < bs.len()
            && bs[i].target == commit_id,
    ensures
        commit_menu(state, repo_id, commit_id, facts)[0] matches ContextMenuItemView::Header(title)
            && crate::text::contains_seq(title, active_repo(state)->0.branches->0[i].name),
{
    let bs = active_repo(state)->0.branches->0;
    let pred = |b: BranchView| b.target == commit_id;
    let kept = bs.filter(pred);
    bs.lemma_filter_contains(pred, i);
    let t = choose|t: int| 0 <= t < kept.len() && kept[t] == bs[i];
    let names = branch_names_at(state, commit_id);
    assert(names == kept.map_values(|b: BranchView| b.name));
    assert(names[t] == bs[i].name);
    lemma_join_names_contains(names, t);
    assert(header_text(names, short_id(commit_id)) == join_names(names));
    let menu = commit_menu(state, repo_id, commit_id, facts);
    assert(menu[0] == menu_head(state, repo_id, commit_id, facts)[0]);
}

} // verus!
