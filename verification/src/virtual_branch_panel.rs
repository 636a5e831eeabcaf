//! The virtual branches panel, the assign-to-branch picker and the prune
//! confirmation: what each row shows, which buttons are live, and what a
//! click dispatches.
use vstd::prelude::*;
use crate::context_menu::commit::numbered_label;
use crate::find::lemma_map_push;
use crate::message::{Msg, MsgView};
use crate::model::{
    branches_view, find_repo_index, find_repo_view, strs_view, AppState, RepoId, RepoState,
    VirtualBranch, VirtualBranchView,
};
use crate::popover::{PopoverKind, PopoverKindView};
use crate::text::{push_str, string_of};
use crate::virtual_branches::{branch_position, clone_strings, decimal, find_branch_index};

verus! {

/// The toggle a panel row offers: an applied branch can be unapplied, an
/// unapplied one applied.
#[derive(Clone, Copy, Debug, PartialEq, Eq, Structural)]
pub enum BranchToggle {
    Apply,
    Unapply,
}

/// One row of the virtual branches panel.
#[derive(Clone, Debug, PartialEq, Eq)]
pub struct VirtualBranchRow {
    pub branch_id: u64,
    pub name: String,
    /// `<state> · <n> file(s)`, the state being `…` while an operation runs.
    pub status: String,
    pub toggle: BranchToggle,
    pub toggle_enabled: bool,
    pub commit_enabled: bool,
    pub delete_enabled: bool,
}

pub struct VirtualBranchRowView {
    pub branch_id: u64,
    pub name: Seq<char>,
    pub status: Seq<char>,
    pub toggle: BranchToggle,
    pub toggle_enabled: bool,
    pub commit_enabled: bool,
    pub delete_enabled: bool,
}

impl View for VirtualBranchRow {
    type V = VirtualBranchRowView;

    open spec fn view(&self) -> VirtualBranchRowView {
        VirtualBranchRowView {
            branch_id: self.branch_id,
            name: self.name@,
            status: self.status@,
            toggle: self.toggle,
            toggle_enabled: self.toggle_enabled,
            commit_enabled: self.commit_enabled,
            delete_enabled: self.delete_enabled,
        }
    }
}

pub open spec fn status_label(b: VirtualBranchView) -> Seq<char> {
    if b.pending {
        "…"@
    } else if b.applied {
        "applied"@
    } else {
        "unapplied"@
    }
}

pub open spec fn status_line(b: VirtualBranchView) -> Seq<char> {
    status_label(b) + " · "@ + decimal(b.paths.len()) + " file(s)"@
}

/// A branch can be toggled when nothing is pending for it; unapplying also
/// needs at least one assigned path.
pub open spec fn toggle_enabled(b: VirtualBranchView) -> bool {
    !b.pending && (b.applied ==> b.paths.len() != 0)
}

pub open spec fn row_spec(b: VirtualBranchView) -> VirtualBranchRowView {
    VirtualBranchRowView {
        branch_id: b.id,
        name: b.name,
        status: status_line(b),
        toggle: if b.applied {
            BranchToggle::Unapply
        } else {
            BranchToggle::Apply
        },
        toggle_enabled: toggle_enabled(b),
        commit_enabled: b.paths.len() != 0,
        delete_enabled: !b.pending,
    }
}

/// The branches of the repository with id `repo_id`; none when it is not open.
pub open spec fn repo_branches(state: crate::model::AppStateView, repo_id: RepoId) -> Seq<
    VirtualBranchView,
> {
    match find_repo_view(state.repos, repo_id) {
        Some(r) => r.virtual_branches,
        None => Seq::empty(),
    }
}

fn status_text(b: &VirtualBranch) -> (res: String)
    ensures
        res@ == status_line(b@),
{
    let label: &str = if b.pending {
        "…"
    } else if b.applied {
        "applied"
    } else {
        "unapplied"
    };
    let mut prefix: Vec<char> = Vec::new();
    push_str(&mut prefix, label);
    push_str(&mut prefix, " · ");
    let head = string_of(&prefix);
    let out = numbered_label(head.as_str(), b.paths.len(), " file(s)");
    proof {
        assert(b@.paths.len() == b.paths@.len());
    }
    out
}

/// The panel row of branch `b`.
pub fn virtual_branch_row(b: &VirtualBranch) -> (res: VirtualBranchRow)
    ensures
        res@ == row_spec(b@),
{
    let count = b.paths.len();
    proof {
        assert(b@.paths.len() == count);
    }
    VirtualBranchRow {
        branch_id: b.id,
        name: b.name.clone(),
        status: status_text(b),
        toggle: if b.applied {
            BranchToggle::Unapply
        } else {
            BranchToggle::Apply
        },
        toggle_enabled: !b.pending && (!b.applied || count != 0),
        commit_enabled: count != 0,
        delete_enabled: !b.pending,
    }
}

fn repo_of<'a>(state: &'a AppState, repo_id: RepoId) -> (res: Option<&'a RepoState>)
    ensures
        match res {
            Some(r) => find_repo_view(state@.repos, repo_id) == Some(r@),
            None => find_repo_view(state@.repos, repo_id) is None,
        },
{
    match find_repo_index(&state.repos, repo_id) {
        Some(i) => Some(&state.repos[i]),
        None => None,
    }
}

/// The rows of the panel for repository `repo_id`, one per branch in order;
/// none when the repository is not open (the panel then shows its empty text).
pub fn virtual_branch_rows(state: &AppState, repo_id: RepoId) -> (res: Vec<VirtualBranchRow>)
    ensures
        res@.map_values(|r: VirtualBranchRow| r@) == repo_branches(state@, repo_id).map_values(
            |b: VirtualBranchView| row_spec(b),
        ),
{
    let mut out: Vec<VirtualBranchRow> = Vec::new();
    match repo_of(state, repo_id) {
        None => {
            assert(out@.map_values(|r: VirtualBranchRow| r@) =~= Seq::<VirtualBranchRowView>::empty());
        },
        Some(repo) => {
            let vbs = &repo.virtual_branches;
            let ghost bv = branches_view(vbs@);
            let mut i: usize = 0;
            while i < vbs.len()
                invariant
                    i <= vbs.len(),
                    bv == branches_view(vbs@),
                    out@.map_values(|r: VirtualBranchRow| r@) == bv.take(i as int).map_values(
                        |b: VirtualBranchView| row_spec(b),
                    ),
                decreases vbs.len() - i,
            {
                let row = virtual_branch_row(&vbs[i]);
                let ghost before = out@;
                out.push(row);
                proof {
                    lemma_map_push(before, row, |r: VirtualBranchRow| r@);
                    assert(bv.take(i + 1) =~= bv.take(i as int).push(bv[i as int]));
                    lemma_map_push(bv.take(i as int), bv[i as int], |b: VirtualBranchView| row_spec(b));
                }
                i += 1;
            }
            assert(bv.take(vbs.len() as int) =~= bv);
        },
    }
    out
}

/// What a click asks for: the messages to dispatch, then the popover to open.
pub struct ClickOutcome {
    pub msgs: Vec<Msg>,
    pub open: Option<PopoverKind>,
}

pub open spec fn outcome_view(o: ClickOutcome) -> (Seq<MsgView>, Option<PopoverKindView>) {
    (
        o.msgs@.map_values(|m: Msg| m@),
        match o.open {
            Some(k) => Some(k@),
            None => None,
        },
    )
}

pub open spec fn commit_branch_spec(repo_id: RepoId, paths: Seq<Seq<char>>) -> (
    Seq<MsgView>,
    Option<PopoverKindView>,
) {
    (
        if paths.len() == 0 {
            Seq::empty()
        } else {
            seq![MsgView::StagePaths { repo_id, paths }]
        },
        Some(PopoverKindView::CommitPrompt { repo_id }),
    )
}

/// Committing a branch: stage its assigned paths (when there are any), then
/// open the commit prompt so only those changes are committed.
pub fn commit_branch(repo_id: RepoId, paths: &Vec<String>) -> (res: ClickOutcome)
    ensures
        outcome_view(res) == commit_branch_spec(repo_id, strs_view(paths@)),
{
    let mut msgs: Vec<Msg> = Vec::new();
    if paths.len() != 0 {
        msgs.push(Msg::StagePaths { repo_id, paths: clone_strings(paths) });
    }
    let res = ClickOutcome { msgs, open: Some(PopoverKind::CommitPrompt { repo_id }) };
    assert(outcome_view(res).0 =~= commit_branch_spec(repo_id, strs_view(paths@)).0);
    res
}

/// The buttons of a panel row.
#[derive(Clone, Copy, Debug, PartialEq, Eq, Structural)]
pub enum RowButton {
    Toggle,
    Commit,
    Delete,
}

/// What clicking `button` on the row of branch `b` does; a disabled button
/// does nothing.
pub open spec fn row_click_spec(repo_id: RepoId, b: VirtualBranchView, button: RowButton) -> (
    Seq<MsgView>,
    Option<PopoverKindView>,
) {
    match button {
        RowButton::Toggle => if toggle_enabled(b) {
            (
                seq![
                    if b.applied {
                        MsgView::UnapplyVirtualBranch { repo_id, branch_id: b.id }
                    } else {
                        MsgView::ApplyVirtualBranch { repo_id, branch_id: b.id }
                    },
                ],
                None,
            )
        } else {
            (Seq::empty(), None)
        },
        RowButton::Commit => if b.paths.len() != 0 {
            commit_branch_spec(repo_id, b.paths)
        } else {
            (Seq::empty(), None)
        },
        RowButton::Delete => if !b.pending {
            (seq![MsgView::DeleteVirtualBranch { repo_id, branch_id: b.id }], None)
        } else {
            (Seq::empty(), None)
        },
    }
}

pub fn virtual_branch_row_click(repo_id: RepoId, b: &VirtualBranch, button: RowButton) -> (res:
    ClickOutcome)
    ensures
        outcome_view(res) == row_click_spec(repo_id, b@, button),
{
    let count = b.paths.len();
    proof {
        assert(b@.paths.len() == count);
    }
    let mut msgs: Vec<Msg> = Vec::new();
    match button {
        RowButton::Toggle => {
            if !b.pending && (!b.applied || count != 0) {
                if b.applied {
                    msgs.push(Msg::UnapplyVirtualBranch { repo_id, branch_id: b.id });
                } else {
                    msgs.push(Msg::ApplyVirtualBranch { repo_id, branch_id: b.id });
                }
            }
            let res = ClickOutcome { msgs, open: None };
            assert(outcome_view(res).0 =~= row_click_spec(repo_id, b@, button).0);
            res
        },
        RowButton::Commit => {
            if count != 0 {
                commit_branch(repo_id, &b.paths)
            } else {
                let res = ClickOutcome { msgs, open: None };
                assert(outcome_view(res).0 =~= row_click_spec(repo_id, b@, button).0);
                res
            }
        },
        RowButton::Delete => {
            if !b.pending {
                msgs.push(Msg::DeleteVirtualBranch { repo_id, branch_id: b.id });
            }
            let res = ClickOutcome { msgs, open: None };
            assert(outcome_view(res).0 =~= row_click_spec(repo_id, b@, button).0);
            res
        },
    }
}

/// One row of the assign-to-virtual-branch picker for a path.
#[derive(Clone, Debug, PartialEq, Eq)]
pub struct VirtualBranchPickRow {
    pub branch_id: u64,
    pub name: String,
    /// `<n> file(s)`: how many paths the branch already holds.
    pub count_label: String,
    /// Dispatched when the row is picked (the picker then closes).
    pub on_pick: Msg,
}

pub struct VirtualBranchPickRowView {
    pub branch_id: u64,
    pub name: Seq<char>,
    pub count_label: Seq<char>,
    pub on_pick: MsgView,
}

impl View for VirtualBranchPickRow {
    type V = VirtualBranchPickRowView;

    open spec fn view(&self) -> VirtualBranchPickRowView {
        VirtualBranchPickRowView {
            branch_id: self.branch_id,
            name: self.name@,
            count_label: self.count_label@,
            on_pick: self.on_pick@,
        }
    }
}

pub open spec fn pick_row_spec(repo_id: RepoId, path: Seq<char>, b: VirtualBranchView) -> VirtualBranchPickRowView {
    VirtualBranchPickRowView {
        branch_id: b.id,
        name: b.name,
        count_label: decimal(b.paths.len()) + " file(s)"@,
        on_pick: MsgView::AssignPathToVirtualBranch { repo_id, branch_id: b.id, path },
    }
}

/// The picker rows for assigning `path`: one per branch of the repository,
/// in order; none when the repository is not open.
pub fn virtual_branch_pick_rows(state: &AppState, repo_id: RepoId, path: &String) -> (res: Vec<
    VirtualBranchPickRow,
>)
    ensures
        res@.map_values(|r: VirtualBranchPickRow| r@) == repo_branches(state@, repo_id).map_values(
            |b: VirtualBranchView| pick_row_spec(repo_id, path@, b),
        ),
{
    let mut out: Vec<VirtualBranchPickRow> = Vec::new();
    match repo_of(state, repo_id) {
        None => {
            assert(out@.map_values(|r: VirtualBranchPickRow| r@) =~= Seq::<
                VirtualBranchPickRowView,
            >::empty());
        },
        Some(repo) => {
            let vbs = &repo.virtual_branches;
            let ghost bv = branches_view(vbs@);
            let mut i: usize = 0;
            while i < vbs.len()
                invariant
                    i <= vbs.len(),
                    bv == branches_view(vbs@),
                    out@.map_values(|r: VirtualBranchPickRow| r@) == bv.take(i as int).map_values(
                        |b: VirtualBranchView| pick_row_spec(repo_id, path@, b),
                    ),
                decreases vbs.len() - i,
            {
                let b = &vbs[i];
                proof {
                    assert(bv[i as int] == b@);
                    assert(b@.paths.len() == b.paths@.len());
                }
                let row = VirtualBranchPickRow {
                    branch_id: b.id,
                    name: b.name.clone(),
                    count_label: numbered_label("", b.paths.len(), " file(s)"),
                    on_pick: Msg::AssignPathToVirtualBranch {
                        repo_id,
                        branch_id: b.id,
                        path: path.clone(),
                    },
                };
                proof {
                    reveal_strlit("");
                    assert(""@ + decimal(b@.paths.len()) =~= decimal(b@.paths.len()));
                }
                let ghost before = out@;
                out.push(row);
                proof {
                    lemma_map_push(before, row, |r: VirtualBranchPickRow| r@);
                    assert(bv.take(i + 1) =~= bv.take(i as int).push(bv[i as int]));
                    lemma_map_push(
                        bv.take(i as int),
                        bv[i as int],
                        |b: VirtualBranchView| pick_row_spec(repo_id, path@, b),
                    );
                }
                i += 1;
            }
            assert(bv.take(vbs.len() as int) =~= bv);
        },
    }
    out
}

/// The names the prune confirmation lists: for each id in order, the name of
/// the first branch with that id; ids of no branch are skipped.
pub open spec fn prune_names(branches: Seq<VirtualBranchView>, ids: Seq<u64>) -> Seq<Seq<char>>
    decreases ids.len(),
{
    if ids.len() == 0 {
        Seq::empty()
    } else {
        let rest = prune_names(branches, ids.drop_last());
        match branch_position(branches, ids.last()) {
            Some(k) => rest.push(branches[k].name),
            None => rest,
        }
    }
}

pub open spec fn join_lines(names: Seq<Seq<char>>) -> Seq<char>
    decreases names.len(),
{
    if names.len() == 0 {
        Seq::empty()
    } else if names.len() == 1 {
        names[0]
    } else {
        join_lines(names.drop_last()) + "\n"@ + names.last()
    }
}

pub open spec fn prune_list(names: Seq<Seq<char>>) -> Seq<char> {
    if names.len() == 0 {
        "(no branches)"@
    } else {
        join_lines(names)
    }
}

/// The confirmation for removing stale virtual branches.
pub struct PruneConfirm {
    /// The branch names, one per line, or `(no branches)`.
    pub list: String,
    /// Dispatched by the Remove button (the dialog then closes).
    pub on_remove: Msg,
}

pub fn prune_confirm(state: &AppState, repo_id: RepoId, branch_ids: Vec<u64>) -> (res: PruneConfirm)
    ensures
        res.list@ == prune_list(prune_names(repo_branches(state@, repo_id), branch_ids@)),
        res.on_remove@ == (MsgView::PruneVirtualBranches { repo_id, branch_ids: branch_ids@ }),
{
    let ghost bv = repo_branches(state@, repo_id);
    let mut names: Vec<char> = Vec::new();
    let mut count: usize = 0;
    let mut i: usize = 0;
    let repo = repo_of(state, repo_id);
    while i < branch_ids.len()
        invariant
            i <= branch_ids.len(),
            bv == repo_branches(state@, repo_id),
            match repo {
                Some(r) => bv == r@.virtual_branches,
                None => bv.len() == 0,
            },
            count == prune_names(bv, branch_ids@.take(i as int)).len(),
            count <= i,
            names@ == join_lines(prune_names(bv, branch_ids@.take(i as int))),
        decreases branch_ids.len() - i,
    {
        let id = branch_ids[i];
        let ghost done = branch_ids@.take(i as int);
        let ghost before = prune_names(bv, done);
        assert(branch_ids@.take(i + 1).drop_last() =~= done);
        assert(branch_ids@.take(i + 1).last() == id);
        let found: Option<usize> = match repo {
            Some(r) => find_branch_index(&r.virtual_branches, id),
            None => None,
        };
        match found {
            Some(k) => {
                let r = repo.unwrap();
                proof {
                    assert(bv[k as int] == r.virtual_branches@[k as int]@);
                }
                if count > 0 {
                    push_str(&mut names, "\n");
                }
                push_str(&mut names, r.virtual_branches[k].name.as_str());
                proof {
                    let after = before.push(bv[k as int].name);
                    assert(prune_names(bv, branch_ids@.take(i + 1)) == after);
                    assert(after.drop_last() =~= before);
                    if count == 0 {
                        assert(before.len() == 0);
                        assert(names@ =~= join_lines(after));
                    } else {
                        assert(names@ =~= join_lines(after));
                    }
                }
                count = count + 1;
            },
            None => {
                proof {
                    if repo is None {
                        assert(branch_position(bv, id) is None);
                    }
                }
            },
        }
        i += 1;
    }
    assert(branch_ids@.take(branch_ids.len() as int) =~= branch_ids@);
    let list = if count == 0 {
        let mut empty_text: Vec<char> = Vec::new();
        push_str(&mut empty_text, "(no branches)");
        string_of(&empty_text)
    } else {
        string_of(&names)
    };
    PruneConfirm { list, on_remove: Msg::PruneVirtualBranches { repo_id, branch_ids } }
}

} // verus!
