//! Reducer for a repository's virtual branches: named groups of worktree
//! paths whose changes can be parked into a stored patch (unapplied) and
//! restored later (applied).
//!
//! Every function finds the repository (and branch) by id, changes the state
//! as its contract states, and returns the effects the store must run.
use vstd::prelude::*;
use crate::model::{
    branches_view, opt_str_view, repo_position, strs_view, AppState, AppStateView, DiagnosticKind,
    DiagnosticView, Diagnostic, RepoId, RepoState, RepoStateView, VirtualBranch,
    VirtualBranchView, find_repo_index, lemma_repos_view_update,
};
use crate::text::{
    concat, chars_of, is_blank, is_blank_str, push_all, push_str, string_of, trim_end, trimmed_end,
};

verus! {

/// The session file that persists a repository's virtual branch workspace.
#[derive(Clone, Debug, PartialEq, Eq)]
pub struct VirtualBranchesSessionFile {
    pub next_id: u64,
    pub branches: Vec<VirtualBranch>,
}

/// Work the store performs after a virtual-branch reducer has run.
#[derive(Clone, Debug, PartialEq, Eq)]
pub enum Effect {
    PersistVirtualBranches {
        repo_id: Option<RepoId>,
        workdir: String,
        data: VirtualBranchesSessionFile,
        action: &'static str,
    },
    UnapplyVirtualBranch { repo_id: RepoId, branch_id: u64, paths: Vec<String> },
    ApplyVirtualBranch { repo_id: RepoId, branch_id: u64, patch: String },
    MoveHunkToVirtualBranch { repo_id: RepoId, branch_id: u64, patch: String, path: String },
}

pub enum EffectView {
    PersistVirtualBranches {
        repo_id: Option<RepoId>,
        workdir: Seq<char>,
        next_id: u64,
        branches: Seq<VirtualBranchView>,
        action: Seq<char>,
    },
    UnapplyVirtualBranch { repo_id: RepoId, branch_id: u64, paths: Seq<Seq<char>> },
    ApplyVirtualBranch { repo_id: RepoId, branch_id: u64, patch: Seq<char> },
    MoveHunkToVirtualBranch { repo_id: RepoId, branch_id: u64, patch: Seq<char>, path: Seq<char> },
}

impl View for Effect {
    type V = EffectView;

    open spec fn view(&self) -> EffectView {
        match self {
            Effect::PersistVirtualBranches { repo_id, workdir, data, action } =>
                EffectView::PersistVirtualBranches {
                    repo_id: *repo_id,
                    workdir: workdir@,
                    next_id: data.next_id,
                    branches: branches_view(data.branches@),
                    action: action@,
                },
            Effect::UnapplyVirtualBranch { repo_id, branch_id, paths } =>
                EffectView::UnapplyVirtualBranch {
                    repo_id: *repo_id,
                    branch_id: *branch_id,
                    paths: strs_view(paths@),
                },
            Effect::ApplyVirtualBranch { repo_id, branch_id, patch } =>
                EffectView::ApplyVirtualBranch {
                    repo_id: *repo_id,
                    branch_id: *branch_id,
                    patch: patch@,
                },
            Effect::MoveHunkToVirtualBranch { repo_id, branch_id, patch, path } =>
                EffectView::MoveHunkToVirtualBranch {
                    repo_id: *repo_id,
                    branch_id: *branch_id,
                    patch: patch@,
                    path: path@,
                },
        }
    }
}

pub open spec fn effects_view(v: Seq<Effect>) -> Seq<EffectView> {
    v.map_values(|e: Effect| e@)
}

// ---------------------------------------------------------------------------
// The model of each operation on one repository.
// ---------------------------------------------------------------------------

/// The result of an operation on one repository: its new state and the effects.
pub type RepoOutcome = (RepoStateView, Seq<EffectView>);

/// `k` is the first position of a branch with id `id`.
pub open spec fn is_first_branch(vbs: Seq<VirtualBranchView>, id: u64, k: int) -> bool {
    &&& 0 <= k < vbs.len()
    &&& vbs[k].id == id
    &&& forall|j: int| 0 <= j < k ==> vbs[j].id != id
}

pub open spec fn branch_position(vbs: Seq<VirtualBranchView>, id: u64) -> Option<int> {
    if exists|k: int| is_first_branch(vbs, id, k) {
        Some(choose|k: int| is_first_branch(vbs, id, k))
    } else {
        None
    }
}

pub open spec fn has_branch(vbs: Seq<VirtualBranchView>, id: u64) -> bool {
    exists|k: int| 0 <= k < vbs.len() && vbs[k].id == id
}

pub open spec fn persist_view(r: RepoStateView, action: Seq<char>) -> EffectView {
    EffectView::PersistVirtualBranches {
        repo_id: Some(r.id),
        workdir: r.workdir,
        next_id: r.next_virtual_branch_id,
        branches: r.virtual_branches,
        action,
    }
}

/// The repository with its branch list replaced and its revision bumped.
pub open spec fn bumped(r: RepoStateView, vbs: Seq<VirtualBranchView>) -> RepoStateView {
    RepoStateView {
        virtual_branches: vbs,
        virtual_branches_rev: (r.virtual_branches_rev + 1) as u64,
        ..r
    }
}

/// The repository with its branch list replaced, revision unchanged.
pub open spec fn with_branches(r: RepoStateView, vbs: Seq<VirtualBranchView>) -> RepoStateView {
    RepoStateView { virtual_branches: vbs, ..r }
}

/// A persisting change: the new state and its single persist effect.
pub open spec fn persisted(r: RepoStateView, action: Seq<char>) -> RepoOutcome {
    (r, seq![persist_view(r, action)])
}

pub open spec fn unchanged(r: RepoStateView) -> RepoOutcome {
    (r, Seq::empty())
}

/// The decimal digit for `d < 10`.
pub open spec fn digit_char(d: nat) -> char {
    ((('0' as u32) + d) as u32) as char
}

/// The decimal rendering of `n` (`u64`'s `Display`).
pub open spec fn decimal(n: nat) -> Seq<char>
    decreases n,
{
    if n < 10 {
        seq![digit_char(n)]
    } else {
        decimal(n / 10).push(digit_char(n % 10))
    }
}

/// The name a new branch gets: the given one, or `Branch <id>` when it is blank.
pub open spec fn new_branch_name(name: Seq<char>, id: u64) -> Seq<char> {
    if is_blank(name) {
        "Branch "@ + decimal(id as nat)
    } else {
        name
    }
}

pub open spec fn create_repo(r: RepoStateView, name: Seq<char>) -> RepoOutcome {
    let id = r.next_virtual_branch_id;
    let b = VirtualBranchView {
        id,
        name: new_branch_name(name, id),
        paths: Seq::empty(),
        applied: true,
        stored_patch: None,
        pending: false,
    };
    persisted(
        RepoStateView {
            next_virtual_branch_id: (id + 1) as u64,
            ..bumped(r, r.virtual_branches.push(b))
        },
        "creating a virtual branch"@,
    )
}

pub open spec fn rename_repo(r: RepoStateView, branch_id: u64, name: Seq<char>) -> RepoOutcome {
    match branch_position(r.virtual_branches, branch_id) {
        None => unchanged(r),
        Some(k) => if is_blank(name) {
            unchanged(r)
        } else {
            persisted(
                bumped(
                    r,
                    r.virtual_branches.update(
                        k,
                        VirtualBranchView { name, ..r.virtual_branches[k] },
                    ),
                ),
                "renaming a virtual branch"@,
            )
        },
    }
}

/// `vbs` without the branches whose id is `id` (`retain(|b| b.id != id)`).
pub open spec fn without_branch(vbs: Seq<VirtualBranchView>, id: u64) -> Seq<VirtualBranchView>
    decreases vbs.len(),
{
    if vbs.len() == 0 {
        vbs
    } else {
        let rest = without_branch(vbs.drop_last(), id);
        if vbs.last().id != id {
            rest.push(vbs.last())
        } else {
            rest
        }
    }
}

pub open spec fn delete_repo(r: RepoStateView, branch_id: u64) -> RepoOutcome {
    persisted(
        bumped(r, without_branch(r.virtual_branches, branch_id)),
        "deleting a virtual branch"@,
    )
}

/// `vbs` without the branches whose id is in `ids`.
pub open spec fn without_branches(vbs: Seq<VirtualBranchView>, ids: Seq<u64>) -> Seq<VirtualBranchView>
    decreases vbs.len(),
{
    if vbs.len() == 0 {
        vbs
    } else {
        let rest = without_branches(vbs.drop_last(), ids);
        if !ids.contains(vbs.last().id) {
            rest.push(vbs.last())
        } else {
            rest
        }
    }
}

pub open spec fn prune_repo(r: RepoStateView, ids: Seq<u64>) -> RepoOutcome {
    let kept = without_branches(r.virtual_branches, ids);
    if ids.len() == 0 || kept.len() == r.virtual_branches.len() {
        unchanged(r)
    } else {
        persisted(bumped(r, kept), "pruning stale virtual branches"@)
    }
}

/// `paths` without every copy of `p` (`retain(|q| q != p)`).
pub open spec fn without_path(paths: Seq<Seq<char>>, p: Seq<char>) -> Seq<Seq<char>>
    decreases paths.len(),
{
    if paths.len() == 0 {
        paths
    } else {
        let rest = without_path(paths.drop_last(), p);
        if paths.last() != p {
            rest.push(paths.last())
        } else {
            rest
        }
    }
}

/// Every branch with `p` removed from its paths.
pub open spec fn strip_path(vbs: Seq<VirtualBranchView>, p: Seq<char>) -> Seq<VirtualBranchView> {
    vbs.map_values(|b: VirtualBranchView| VirtualBranchView { paths: without_path(b.paths, p), ..b })
}

/// `p` removed from every branch, then added to the branch at `k`.
pub open spec fn moved_path(vbs: Seq<VirtualBranchView>, k: int, p: Seq<char>) -> Seq<VirtualBranchView> {
    let s = strip_path(vbs, p);
    s.update(k, VirtualBranchView { paths: s[k].paths.push(p), ..s[k] })
}

pub open spec fn assign_repo(r: RepoStateView, branch_id: u64, path: Seq<char>) -> RepoOutcome {
    match branch_position(r.virtual_branches, branch_id) {
        None => unchanged(r),
        Some(k) => persisted(
            bumped(r, moved_path(r.virtual_branches, k, path)),
            "assigning a path to a virtual branch"@,
        ),
    }
}

pub open spec fn unassign_repo(r: RepoStateView, branch_id: u64, path: Seq<char>) -> RepoOutcome {
    match branch_position(r.virtual_branches, branch_id) {
        None => unchanged(r),
        Some(k) => {
            let b = r.virtual_branches[k];
            let paths = without_path(b.paths, path);
            if paths.len() == b.paths.len() {
                unchanged(r)
            } else {
                persisted(
                    bumped(r, r.virtual_branches.update(k, VirtualBranchView { paths, ..b })),
                    "unassigning a path from a virtual branch"@,
                )
            }
        },
    }
}

/// The branch at `k` marked pending (or not).
pub open spec fn set_pending(vbs: Seq<VirtualBranchView>, k: int, pending: bool) -> Seq<VirtualBranchView> {
    vbs.update(k, VirtualBranchView { pending, ..vbs[k] })
}

pub open spec fn unapply_repo(r: RepoStateView, repo_id: RepoId, branch_id: u64) -> RepoOutcome {
    match branch_position(r.virtual_branches, branch_id) {
        None => unchanged(r),
        Some(k) => {
            let b = r.virtual_branches[k];
            if !b.applied || b.pending || b.paths.len() == 0 {
                unchanged(r)
            } else {
                (
                    with_branches(r, set_pending(r.virtual_branches, k, true)),
                    seq![EffectView::UnapplyVirtualBranch { repo_id, branch_id, paths: b.paths }],
                )
            }
        },
    }
}

pub open spec fn apply_repo(r: RepoStateView, repo_id: RepoId, branch_id: u64) -> RepoOutcome {
    match branch_position(r.virtual_branches, branch_id) {
        None => unchanged(r),
        Some(k) => {
            let b = r.virtual_branches[k];
            if b.applied || b.pending {
                unchanged(r)
            } else {
                match b.stored_patch {
                    None => unchanged(r),
                    Some(patch) => (
                        with_branches(r, set_pending(r.virtual_branches, k, true)),
                        seq![EffectView::ApplyVirtualBranch { repo_id, branch_id, patch }],
                    ),
                }
            }
        },
    }
}

/// The stored patch after `patch` is parked: appended to a non-blank previous
/// patch (separated by a newline), trailing whitespace removed from both.
pub open spec fn merged_patch(prev: Option<Seq<char>>, patch: Seq<char>) -> Seq<char> {
    match prev {
        Some(q) => if !is_blank(q) {
            trim_end(q) + seq!['\n'] + trim_end(patch)
        } else {
            trim_end(patch)
        },
        None => trim_end(patch),
    }
}

/// The branch at `k` with `patch` parked and marked unapplied and not pending.
pub open spec fn parked(vbs: Seq<VirtualBranchView>, k: int, patch: Seq<char>) -> Seq<VirtualBranchView> {
    vbs.update(
        k,
        VirtualBranchView {
            stored_patch: Some(merged_patch(vbs[k].stored_patch, patch)),
            applied: false,
            pending: false,
            ..vbs[k]
        },
    )
}

/// The repository with a diagnostic error appended.
pub open spec fn with_error(r: RepoStateView, message: Seq<char>) -> RepoStateView {
    RepoStateView {
        diagnostics: r.diagnostics.push(DiagnosticView { kind: DiagnosticKind::Error, message }),
        ..r
    }
}

pub open spec fn unapplied_repo(
    r: RepoStateView,
    branch_id: u64,
    result: Result<Seq<char>, Seq<char>>,
) -> RepoOutcome {
    match branch_position(r.virtual_branches, branch_id) {
        None => unchanged(r),
        Some(k) => match result {
            Ok(patch) => persisted(
                bumped(r, parked(r.virtual_branches, k, patch)),
                "unapplying a virtual branch"@,
            ),
            Err(e) => unchanged(
                with_error(
                    with_branches(r, set_pending(r.virtual_branches, k, false)),
                    "Unapply virtual branch: "@ + e,
                ),
            ),
        },
    }
}

pub open spec fn applied_repo(r: RepoStateView, branch_id: u64, result: Result<(), Seq<char>>) -> RepoOutcome {
    match branch_position(r.virtual_branches, branch_id) {
        None => unchanged(r),
        Some(k) => match result {
            Ok(()) => persisted(
                bumped(
                    r,
                    r.virtual_branches.update(
                        k,
                        VirtualBranchView {
                            applied: true,
                            stored_patch: None,
                            pending: false,
                            ..r.virtual_branches[k]
                        },
                    ),
                ),
                "applying a virtual branch"@,
            ),
            Err(e) => unchanged(
                with_error(
                    with_branches(r, set_pending(r.virtual_branches, k, false)),
                    "Apply virtual branch: "@ + e,
                ),
            ),
        },
    }
}

pub open spec fn move_hunk_repo(
    r: RepoStateView,
    repo_id: RepoId,
    branch_id: u64,
    patch: Seq<char>,
    path: Seq<char>,
) -> RepoOutcome {
    match branch_position(r.virtual_branches, branch_id) {
        None => unchanged(r),
        Some(k) => if r.virtual_branches[k].pending || is_blank(patch) {
            unchanged(r)
        } else {
            (
                with_branches(r, set_pending(r.virtual_branches, k, true)),
                seq![EffectView::MoveHunkToVirtualBranch { repo_id, branch_id, patch, path }],
            )
        },
    }
}

pub open spec fn hunk_moved_repo(
    r: RepoStateView,
    branch_id: u64,
    path: Seq<char>,
    result: Result<Seq<char>, Seq<char>>,
) -> RepoOutcome {
    match branch_position(r.virtual_branches, branch_id) {
        None => unchanged(r),
        Some(k) => match result {
            Ok(patch) => persisted(
                bumped(r, moved_path(parked(r.virtual_branches, k, patch), k, path)),
                "moving a hunk to a virtual branch"@,
            ),
            Err(e) => unchanged(
                with_error(
                    with_branches(r, set_pending(r.virtual_branches, k, false)),
                    "Move hunk to virtual branch: "@ + e,
                ),
            ),
        },
    }
}

// ---------------------------------------------------------------------------
// Lifting an operation on one repository to the application state.
// ---------------------------------------------------------------------------

/// The application state after the repository with id `repo_id` is replaced
/// by the outcome's state (nothing changes when there is no such repository).
pub open spec fn lift_state(s: AppStateView, repo_id: RepoId, out: spec_fn(RepoStateView) -> RepoOutcome) -> AppStateView {
    match repo_position(s.repos, repo_id) {
        None => s,
        Some(i) => AppStateView { repos: s.repos.update(i, out(s.repos[i]).0), ..s },
    }
}

/// The effects of the outcome on the repository with id `repo_id`.
pub open spec fn lift_effects(s: AppStateView, repo_id: RepoId, out: spec_fn(RepoStateView) -> RepoOutcome) -> Seq<EffectView> {
    match repo_position(s.repos, repo_id) {
        None => Seq::empty(),
        Some(i) => out(s.repos[i]).1,
    }
}

/// The revision counter of the repository with id `repo_id` can still be bumped.
pub open spec fn rev_bumpable(s: AppStateView, repo_id: RepoId) -> bool {
    match repo_position(s.repos, repo_id) {
        None => true,
        Some(i) => s.repos[i].virtual_branches_rev < u64::MAX,
    }
}

// ---------------------------------------------------------------------------
// Executable helpers.
// ---------------------------------------------------------------------------

pub(crate) fn clone_strings(v: &Vec<String>) -> (res: Vec<String>)
    ensures
        strs_view(res@) == strs_view(v@),
{
    let mut out: Vec<String> = Vec::new();
    let mut i: usize = 0;
    while i < v.len()
        invariant
            i <= v.len(),
            out@ == v@.take(i as int),
        decreases v.len() - i,
    {
        out.push(v[i].clone());
        i += 1;
        assert(out@ =~= v@.take(i as int));
    }
    assert(v@.take(v.len() as int) =~= v@);
    out
}

fn clone_opt_string(o: &Option<String>) -> (res: Option<String>)
    ensures
        opt_str_view(res) == opt_str_view(*o),
{
    match o {
        Some(s) => Some(s.clone()),
        None => None,
    }
}

fn clone_branch(b: &VirtualBranch) -> (res: VirtualBranch)
    ensures
        res@ == b@,
{
    VirtualBranch {
        id: b.id,
        name: b.name.clone(),
        paths: clone_strings(&b.paths),
        applied: b.applied,
        stored_patch: clone_opt_string(&b.stored_patch),
        pending: b.pending,
    }
}

fn clone_branches(v: &Vec<VirtualBranch>) -> (res: Vec<VirtualBranch>)
    ensures
        branches_view(res@) == branches_view(v@),
{
    let mut out: Vec<VirtualBranch> = Vec::new();
    let mut i: usize = 0;
    while i < v.len()
        invariant
            i <= v.len(),
            out@.len() == i,
            forall|j: int| 0 <= j < i ==> #[trigger] out@[j]@ == v@[j]@,
        decreases v.len() - i,
    {
        out.push(clone_branch(&v[i]));
        i += 1;
    }
    assert(branches_view(out@) =~= branches_view(v@));
    out
}

/// Builds the session persist effect for a repo's virtual branch workspace.
pub fn persist_effect(repo: &RepoState, action: &'static str) -> (res: Effect)
    ensures
        res@ == persist_view(repo@, action@),
{
    Effect::PersistVirtualBranches {
        repo_id: Some(repo.id),
        workdir: repo.workdir.clone(),
        data: VirtualBranchesSessionFile {
            next_id: repo.next_virtual_branch_id,
            branches: clone_branches(&repo.virtual_branches),
        },
        action,
    }
}

proof fn lemma_first_branch_unique(vbs: Seq<VirtualBranchView>, id: u64, i: int, j: int)
    requires
        is_first_branch(vbs, id, i),
        is_first_branch(vbs, id, j),
    ensures
        i == j,
{
}

/// Position of the first branch with id `id`.
pub fn find_branch_index(vbs: &Vec<VirtualBranch>, id: u64) -> (res: Option<usize>)
    ensures
        res matches Some(k) ==> k < vbs@.len() && branch_position(branches_view(vbs@), id) == Some(
            k as int,
        ) && is_first_branch(branches_view(vbs@), id, k as int),
        res is None ==> branch_position(branches_view(vbs@), id) is None,
        res is None <==> !has_branch(branches_view(vbs@), id),
{
    let ghost views = branches_view(vbs@);
    let mut i: usize = 0;
    while i < vbs.len()
        invariant
            i <= vbs.len(),
            views == branches_view(vbs@),
            forall|j: int| 0 <= j < i ==> views[j].id != id,
        decreases vbs.len() - i,
    {
        if vbs[i].id == id {
            assert(is_first_branch(views, id, i as int));
            let ghost k = choose|k: int| is_first_branch(views, id, k);
            proof {
                lemma_first_branch_unique(views, id, i as int, k);
            }
            return Some(i);
        }
        i += 1;
    }
    assert(!exists|k: int| is_first_branch(views, id, k));
    None
}

fn remove_path(paths: &Vec<String>, p: &String) -> (res: Vec<String>)
    ensures
        strs_view(res@) == without_path(strs_view(paths@), p@),
{
    let mut out: Vec<String> = Vec::new();
    let mut i: usize = 0;
    while i < paths.len()
        invariant
            i <= paths.len(),
            strs_view(out@) == without_path(strs_view(paths@.take(i as int)), p@),
        decreases paths.len() - i,
    {
        let ghost before = strs_view(paths@.take(i as int));
        assert(strs_view(paths@.take(i + 1)).drop_last() =~= before);
        if paths[i] != *p {
            out.push(paths[i].clone());
            assert(strs_view(out@) =~= without_path(before, p@).push(paths@[i as int]@));
        }
        i += 1;
    }
    assert(paths@.take(paths.len() as int) =~= paths@);
    out
}

fn strip_path_exec(vbs: &mut Vec<VirtualBranch>, p: &String)
    ensures
        branches_view(final(vbs)@) == strip_path(branches_view(old(vbs)@), p@),
        final(vbs)@.len() == old(vbs)@.len(),
{
    let mut i: usize = 0;
    while i < vbs.len()
        invariant
            i <= vbs.len() == old(vbs).len(),
            forall|j: int| 0 <= j < i ==> #[trigger] vbs@[j]@ == (VirtualBranchView {
                paths: without_path(old(vbs)@[j]@.paths, p@),
                ..old(vbs)@[j]@
            }),
            forall|j: int| i <= j < vbs.len() ==> #[trigger] vbs@[j] == old(vbs)@[j],
        decreases vbs.len() - i,
    {
        let kept = remove_path(&vbs[i].paths, p);
        vbs[i].paths = kept;
        i += 1;
    }
    assert(branches_view(vbs@) =~= strip_path(branches_view(old(vbs)@), p@));
}

/// Converts `n` to its decimal digits.
pub fn decimal_string(n: u64) -> (res: Vec<char>)
    ensures
        res@ == decimal(n as nat),
    decreases n,
{
    if n < 10 {
        let c = ((n as u8) + 48) as char;
        assert(c == digit_char(n as nat));
        let mut v: Vec<char> = Vec::new();
        v.push(c);
        v
    } else {
        let mut v = decimal_string(n / 10);
        let d = n % 10;
        let c = ((d as u8) + 48) as char;
        assert(c == digit_char((n as nat) % 10));
        v.push(c);
        v
    }
}

fn ensure_exec_bump(repo: &mut RepoState)
    requires
        old(repo).virtual_branches_rev < u64::MAX,
    ensures
        final(repo)@ == (RepoStateView {
            virtual_branches_rev: (old(repo)@.virtual_branches_rev + 1) as u64,
            ..old(repo)@
        }),
{
    repo.virtual_branches_rev = repo.virtual_branches_rev + 1;
}

// ---------------------------------------------------------------------------
// The operations on one repository.
// ---------------------------------------------------------------------------

fn create_in_repo(repo: &mut RepoState, name: String) -> (res: Vec<Effect>)
    requires
        old(repo).virtual_branches_rev < u64::MAX,
        old(repo).next_virtual_branch_id < u64::MAX,
    ensures
        final(repo)@ == create_repo(old(repo)@, name@).0,
        effects_view(res@) == create_repo(old(repo)@, name@).1,
{
    let ghost name0 = name@;
    let id = repo.next_virtual_branch_id;
    repo.next_virtual_branch_id = id + 1;
    let blank = is_blank_str(name.as_str());
    let name = if blank {
        let mut buf = chars_of("Branch ");
        let digits = decimal_string(id);
        push_all(&mut buf, &digits);
        proof {
            reveal_strlit("Branch ");
        }
        string_of(&buf)
    } else {
        name
    };
    let ghost old_vbs = repo.virtual_branches@;
    let b = VirtualBranch {
        id,
        name,
        paths: Vec::new(),
        applied: true,
        stored_patch: None,
        pending: false,
    };
    let ghost out = create_repo(old(repo)@, name0);
    assert(strs_view(b.paths@) =~= Seq::<Seq<char>>::empty());
    assert(b@ == out.0.virtual_branches.last());
    repo.virtual_branches.push(b);
    assert(repo.virtual_branches@ == old_vbs.push(b));
    assert(branches_view(repo.virtual_branches@) =~= branches_view(old_vbs).push(b@));
    ensure_exec_bump(repo);
    let e = persist_effect(repo, "creating a virtual branch");
    let v = vec![e];
    assert(effects_view(v@) =~= out.1);
    v
}


fn rename_in_repo(repo: &mut RepoState, branch_id: u64, name: String) -> (res: Vec<Effect>)
    requires
        rename_repo(old(repo)@, branch_id, name@).1.len() > 0 ==> old(repo).virtual_branches_rev < u64::MAX,
    ensures
        final(repo)@ == rename_repo(old(repo)@, branch_id, name@).0,
        effects_view(res@) == rename_repo(old(repo)@, branch_id, name@).1,
{
    let ghost name0 = name@;
    match find_branch_index(&repo.virtual_branches, branch_id) {
        None => Vec::new(),
        Some(k) => {
            if is_blank_str(name.as_str()) {
                return Vec::new();
            }
            let ghost old_vbs = repo.virtual_branches@;
            repo.virtual_branches[k].name = name;
            assert(branches_view(repo.virtual_branches@) =~= branches_view(old_vbs).update(
                k as int,
                VirtualBranchView { name: name0, ..branches_view(old_vbs)[k as int] },
            ));
            ensure_exec_bump(repo);
            let v = vec![persist_effect(repo, "renaming a virtual branch")];
            assert(effects_view(v@) =~= rename_repo(old(repo)@, branch_id, name0).1);
            v
        },
    }
}

fn keep_branches_without(vbs: &Vec<VirtualBranch>, id: u64) -> (res: Vec<VirtualBranch>)
    ensures
        branches_view(res@) == without_branch(branches_view(vbs@), id),
{
    let mut out: Vec<VirtualBranch> = Vec::new();
    let mut i: usize = 0;
    while i < vbs.len()
        invariant
            i <= vbs.len(),
            branches_view(out@) == without_branch(branches_view(vbs@.take(i as int)), id),
        decreases vbs.len() - i,
    {
        let ghost before = branches_view(vbs@.take(i as int));
        assert(branches_view(vbs@.take(i + 1)).drop_last() =~= before);
        if vbs[i].id != id {
            let b = clone_branch(&vbs[i]);
            out.push(b);
            assert(branches_view(out@) =~= without_branch(before, id).push(vbs@[i as int]@));
        }
        i += 1;
    }
    assert(vbs@.take(vbs.len() as int) =~= vbs@);
    out
}

fn delete_in_repo(repo: &mut RepoState, branch_id: u64) -> (res: Vec<Effect>)
    requires
        old(repo).virtual_branches_rev < u64::MAX,
    ensures
        final(repo)@ == delete_repo(old(repo)@, branch_id).0,
        effects_view(res@) == delete_repo(old(repo)@, branch_id).1,
{
    let kept = keep_branches_without(&repo.virtual_branches, branch_id);
    repo.virtual_branches = kept;
    ensure_exec_bump(repo);
    let v = vec![persist_effect(repo, "deleting a virtual branch")];
    assert(effects_view(v@) =~= delete_repo(old(repo)@, branch_id).1);
    v
}

fn contains_id(ids: &Vec<u64>, id: u64) -> (res: bool)
    ensures
        res == ids@.contains(id),
{
    let mut i: usize = 0;
    while i < ids.len()
        invariant
            i <= ids.len(),
            forall|j: int| 0 <= j < i ==> ids@[j] != id,
        decreases ids.len() - i,
    {
        if ids[i] == id {
            assert(ids@[i as int] == id);
            return true;
        }
        i += 1;
    }
    false
}

proof fn lemma_without_branches_len(vbs: Seq<VirtualBranchView>, ids: Seq<u64>)
    ensures
        without_branches(vbs, ids).len() <= vbs.len(),
        without_branches(vbs, ids).len() == vbs.len() ==> without_branches(vbs, ids) == vbs,
    decreases vbs.len(),
{
    if vbs.len() > 0 {
        lemma_without_branches_len(vbs.drop_last(), ids);
        if without_branches(vbs, ids).len() == vbs.len() {
            assert(vbs.drop_last().push(vbs.last()) =~= vbs);
        }
    }
}

fn keep_branches_not_in(vbs: &Vec<VirtualBranch>, ids: &Vec<u64>) -> (res: Vec<VirtualBranch>)
    ensures
        branches_view(res@) == without_branches(branches_view(vbs@), ids@),
{
    let mut out: Vec<VirtualBranch> = Vec::new();
    let mut i: usize = 0;
    while i < vbs.len()
        invariant
            i <= vbs.len(),
            branches_view(out@) == without_branches(branches_view(vbs@.take(i as int)), ids@),
        decreases vbs.len() - i,
    {
        let ghost before = branches_view(vbs@.take(i as int));
        assert(branches_view(vbs@.take(i + 1)).drop_last() =~= before);
        if !contains_id(ids, vbs[i].id) {
            let b = clone_branch(&vbs[i]);
            out.push(b);
            assert(branches_view(out@) =~= without_branches(before, ids@).push(vbs@[i as int]@));
        }
        i += 1;
    }
    assert(vbs@.take(vbs.len() as int) =~= vbs@);
    out
}

fn prune_in_repo(repo: &mut RepoState, branch_ids: Vec<u64>) -> (res: Vec<Effect>)
    requires
        prune_repo(old(repo)@, branch_ids@).1.len() > 0 ==> old(repo).virtual_branches_rev < u64::MAX,
    ensures
        final(repo)@ == prune_repo(old(repo)@, branch_ids@).0,
        effects_view(res@) == prune_repo(old(repo)@, branch_ids@).1,
{
    if branch_ids.len() == 0 {
        return Vec::new();
    }
    let before = repo.virtual_branches.len();
    let kept = keep_branches_not_in(&repo.virtual_branches, &branch_ids);
    if kept.len() == before {
        return Vec::new();
    }
    repo.virtual_branches = kept;
    ensure_exec_bump(repo);
    let v = vec![persist_effect(repo, "pruning stale virtual branches")];
    assert(effects_view(v@) =~= prune_repo(old(repo)@, branch_ids@).1);
    v
}

fn assign_in_repo(repo: &mut RepoState, branch_id: u64, path: String) -> (res: Vec<Effect>)
    requires
        assign_repo(old(repo)@, branch_id, path@).1.len() > 0 ==> old(repo).virtual_branches_rev < u64::MAX,
    ensures
        final(repo)@ == assign_repo(old(repo)@, branch_id, path@).0,
        effects_view(res@) == assign_repo(old(repo)@, branch_id, path@).1,
{
    let ghost p = path@;
    match find_branch_index(&repo.virtual_branches, branch_id) {
        None => Vec::new(),
        Some(k) => {
            let ghost old_view = branches_view(repo.virtual_branches@);
            strip_path_exec(&mut repo.virtual_branches, &path);
            let ghost before_push = repo.virtual_branches@;
            repo.virtual_branches[k].paths.push(path);
            assert(strs_view(repo.virtual_branches@[k as int].paths@) =~= strs_view(
                before_push[k as int].paths@,
            ).push(p));
            assert(branches_view(repo.virtual_branches@) =~= moved_path(old_view, k as int, p));
            ensure_exec_bump(repo);
            let v = vec![persist_effect(repo, "assigning a path to a virtual branch")];
            assert(effects_view(v@) =~= assign_repo(old(repo)@, branch_id, p).1);
            v
        },
    }
}

proof fn lemma_without_path_len(paths: Seq<Seq<char>>, p: Seq<char>)
    ensures
        without_path(paths, p).len() <= paths.len(),
        without_path(paths, p).len() == paths.len() ==> without_path(paths, p) == paths,
    decreases paths.len(),
{
    if paths.len() > 0 {
        lemma_without_path_len(paths.drop_last(), p);
        if without_path(paths, p).len() == paths.len() {
            assert(paths.drop_last().push(paths.last()) =~= paths);
        }
    }
}

fn unassign_in_repo(repo: &mut RepoState, branch_id: u64, path: String) -> (res: Vec<Effect>)
    requires
        unassign_repo(old(repo)@, branch_id, path@).1.len() > 0 ==> old(repo).virtual_branches_rev < u64::MAX,
    ensures
        final(repo)@ == unassign_repo(old(repo)@, branch_id, path@).0,
        effects_view(res@) == unassign_repo(old(repo)@, branch_id, path@).1,
{
    match find_branch_index(&repo.virtual_branches, branch_id) {
        None => Vec::new(),
        Some(k) => {
            let old_len = repo.virtual_branches[k].paths.len();
            let kept = remove_path(&repo.virtual_branches[k].paths, &path);
            if kept.len() == old_len {
                return Vec::new();
            }
            let ghost old_view = branches_view(repo.virtual_branches@);
            repo.virtual_branches[k].paths = kept;
            assert(branches_view(repo.virtual_branches@) =~= old_view.update(
                k as int,
                VirtualBranchView {
                    paths: without_path(old_view[k as int].paths, path@),
                    ..old_view[k as int]
                },
            ));
            ensure_exec_bump(repo);
            let v = vec![persist_effect(repo, "unassigning a path from a virtual branch")];
            assert(effects_view(v@) =~= unassign_repo(old(repo)@, branch_id, path@).1);
            v
        },
    }
}

fn unapply_in_repo(repo: &mut RepoState, repo_id: RepoId, branch_id: u64) -> (res: Vec<Effect>)
    ensures
        final(repo)@ == unapply_repo(old(repo)@, repo_id, branch_id).0,
        effects_view(res@) == unapply_repo(old(repo)@, repo_id, branch_id).1,
{
    match find_branch_index(&repo.virtual_branches, branch_id) {
        None => Vec::new(),
        Some(k) => {
            if !repo.virtual_branches[k].applied || repo.virtual_branches[k].pending
                || repo.virtual_branches[k].paths.len() == 0 {
                return Vec::new();
            }
            let ghost old_view = branches_view(repo.virtual_branches@);
            repo.virtual_branches[k].pending = true;
            assert(branches_view(repo.virtual_branches@) =~= set_pending(old_view, k as int, true));
            let paths = clone_strings(&repo.virtual_branches[k].paths);
            let v = vec![Effect::UnapplyVirtualBranch { repo_id, branch_id, paths }];
            assert(effects_view(v@) =~= unapply_repo(old(repo)@, repo_id, branch_id).1);
            v
        },
    }
}

fn apply_in_repo(repo: &mut RepoState, repo_id: RepoId, branch_id: u64) -> (res: Vec<Effect>)
    ensures
        final(repo)@ == apply_repo(old(repo)@, repo_id, branch_id).0,
        effects_view(res@) == apply_repo(old(repo)@, repo_id, branch_id).1,
{
    match find_branch_index(&repo.virtual_branches, branch_id) {
        None => Vec::new(),
        Some(k) => {
            if repo.virtual_branches[k].applied || repo.virtual_branches[k].pending {
                return Vec::new();
            }
            let patch = match clone_opt_string(&repo.virtual_branches[k].stored_patch) {
                None => {
                    return Vec::new();
                },
                Some(p) => p,
            };
            let ghost old_view = branches_view(repo.virtual_branches@);
            repo.virtual_branches[k].pending = true;
            assert(branches_view(repo.virtual_branches@) =~= set_pending(old_view, k as int, true));
            let v = vec![Effect::ApplyVirtualBranch { repo_id, branch_id, patch }];
            assert(effects_view(v@) =~= apply_repo(old(repo)@, repo_id, branch_id).1);
            v
        },
    }
}

/// The stored patch after `patch` is parked behind `prev`.
fn merge_patch(prev: &Option<String>, patch: &String) -> (res: String)
    ensures
        res@ == merged_patch(opt_str_view(*prev), patch@),
{
    match prev {
        Some(q) => {
            if !is_blank_str(q.as_str()) {
                let head = trimmed_end(q.as_str());
                let mut buf = chars_of(head.as_str());
                buf.push('\n');
                let tail = trimmed_end(patch.as_str());
                push_str(&mut buf, tail.as_str());
                assert(buf@ =~= trim_end(q@) + seq!['\n'] + trim_end(patch@));
                string_of(&buf)
            } else {
                trimmed_end(patch.as_str())
            }
        },
        None => trimmed_end(patch.as_str()),
    }
}

/// Appends an error diagnostic.
fn push_error(repo: &mut RepoState, prefix: &str, detail: &String)
    ensures
        final(repo)@ == with_error(old(repo)@, prefix@ + detail@),
{
    let message = concat(prefix, detail.as_str());
    let ghost old_diags = repo.diagnostics@;
    repo.diagnostics.push(Diagnostic { kind: DiagnosticKind::Error, message });
    assert(crate::model::diagnostics_view(repo.diagnostics@) =~= crate::model::diagnostics_view(
        old_diags,
    ).push(DiagnosticView { kind: DiagnosticKind::Error, message: prefix@ + detail@ }));
}

pub open spec fn result_view(r: Result<String, String>) -> Result<Seq<char>, Seq<char>> {
    match r {
        Ok(s) => Ok(s@),
        Err(e) => Err(e@),
    }
}

pub open spec fn unit_result_view(r: Result<(), String>) -> Result<(), Seq<char>> {
    match r {
        Ok(()) => Ok(()),
        Err(e) => Err(e@),
    }
}

fn unapplied_in_repo(repo: &mut RepoState, branch_id: u64, result: Result<String, String>) -> (res: Vec<Effect>)
    requires
        unapplied_repo(old(repo)@, branch_id, result_view(result)).1.len() > 0 ==> old(repo).virtual_branches_rev < u64::MAX,
    ensures
        final(repo)@ == unapplied_repo(old(repo)@, branch_id, result_view(result)).0,
        effects_view(res@) == unapplied_repo(old(repo)@, branch_id, result_view(result)).1,
{
    match find_branch_index(&repo.virtual_branches, branch_id) {
        None => Vec::new(),
        Some(k) => {
            let ghost old_view = branches_view(repo.virtual_branches@);
            repo.virtual_branches[k].pending = false;
            match result {
                Ok(patch) => {
                    let merged = merge_patch(&repo.virtual_branches[k].stored_patch, &patch);
                    repo.virtual_branches[k].stored_patch = Some(merged);
                    repo.virtual_branches[k].applied = false;
                    assert(branches_view(repo.virtual_branches@) =~= parked(old_view, k as int, patch@));
                    ensure_exec_bump(repo);
                    let v = vec![persist_effect(repo, "unapplying a virtual branch")];
                    assert(effects_view(v@) =~= unapplied_repo(old(repo)@, branch_id, result_view(result)).1);
                    v
                },
                Err(e) => {
                    assert(branches_view(repo.virtual_branches@) =~= set_pending(old_view, k as int, false));
                    push_error(repo, "Unapply virtual branch: ", &e);
                    Vec::new()
                },
            }
        },
    }
}

fn applied_in_repo(repo: &mut RepoState, branch_id: u64, result: Result<(), String>) -> (res: Vec<Effect>)
    requires
        applied_repo(old(repo)@, branch_id, unit_result_view(result)).1.len() > 0 ==> old(repo).virtual_branches_rev < u64::MAX,
    ensures
        final(repo)@ == applied_repo(old(repo)@, branch_id, unit_result_view(result)).0,
        effects_view(res@) == applied_repo(old(repo)@, branch_id, unit_result_view(result)).1,
{
    match find_branch_index(&repo.virtual_branches, branch_id) {
        None => Vec::new(),
        Some(k) => {
            let ghost old_view = branches_view(repo.virtual_branches@);
            repo.virtual_branches[k].pending = false;
            match result {
                Ok(()) => {
                    repo.virtual_branches[k].applied = true;
                    repo.virtual_branches[k].stored_patch = None;
                    assert(branches_view(repo.virtual_branches@) =~= old_view.update(
                        k as int,
                        VirtualBranchView {
                            applied: true,
                            stored_patch: None,
                            pending: false,
                            ..old_view[k as int]
                        },
                    ));
                    ensure_exec_bump(repo);
                    let v = vec![persist_effect(repo, "applying a virtual branch")];
                    assert(effects_view(v@) =~= applied_repo(old(repo)@, branch_id, unit_result_view(result)).1);
                    v
                },
                Err(e) => {
                    assert(branches_view(repo.virtual_branches@) =~= set_pending(old_view, k as int, false));
                    push_error(repo, "Apply virtual branch: ", &e);
                    Vec::new()
                },
            }
        },
    }
}

fn move_hunk_in_repo(
    repo: &mut RepoState,
    repo_id: RepoId,
    branch_id: u64,
    patch: String,
    path: String,
) -> (res: Vec<Effect>)
    ensures
        final(repo)@ == move_hunk_repo(old(repo)@, repo_id, branch_id, patch@, path@).0,
        effects_view(res@) == move_hunk_repo(old(repo)@, repo_id, branch_id, patch@, path@).1,
{
    match find_branch_index(&repo.virtual_branches, branch_id) {
        None => Vec::new(),
        Some(k) => {
            if repo.virtual_branches[k].pending || is_blank_str(patch.as_str()) {
                return Vec::new();
            }
            let ghost old_view = branches_view(repo.virtual_branches@);
            repo.virtual_branches[k].pending = true;
            assert(branches_view(repo.virtual_branches@) =~= set_pending(old_view, k as int, true));
            let ghost (pa, pt) = (patch@, path@);
            let v = vec![Effect::MoveHunkToVirtualBranch { repo_id, branch_id, patch, path }];
            assert(effects_view(v@) =~= move_hunk_repo(old(repo)@, repo_id, branch_id, pa, pt).1);
            v
        },
    }
}

fn hunk_moved_in_repo(
    repo: &mut RepoState,
    branch_id: u64,
    path: String,
    result: Result<String, String>,
) -> (res: Vec<Effect>)
    requires
        hunk_moved_repo(old(repo)@, branch_id, path@, result_view(result)).1.len() > 0 ==> old(repo).virtual_branches_rev < u64::MAX,
    ensures
        final(repo)@ == hunk_moved_repo(old(repo)@, branch_id, path@, result_view(result)).0,
        effects_view(res@) == hunk_moved_repo(old(repo)@, branch_id, path@, result_view(result)).1,
{
    let ghost p = path@;
    match find_branch_index(&repo.virtual_branches, branch_id) {
        None => Vec::new(),
        Some(k) => {
            let ghost old_view = branches_view(repo.virtual_branches@);
            repo.virtual_branches[k].pending = false;
            match result {
                Ok(patch) => {
                    let merged = merge_patch(&repo.virtual_branches[k].stored_patch, &patch);
                    repo.virtual_branches[k].stored_patch = Some(merged);
                    repo.virtual_branches[k].applied = false;
                    let ghost parked_view = parked(old_view, k as int, patch@);
                    assert(branches_view(repo.virtual_branches@) =~= parked_view);
                    strip_path_exec(&mut repo.virtual_branches, &path);
                    let ghost before_push = repo.virtual_branches@;
                    repo.virtual_branches[k].paths.push(path);
                    assert(strs_view(repo.virtual_branches@[k as int].paths@) =~= strs_view(
                        before_push[k as int].paths@,
                    ).push(p));
                    assert(branches_view(repo.virtual_branches@) =~= moved_path(parked_view, k as int, p));
                    ensure_exec_bump(repo);
                    let v = vec![persist_effect(repo, "moving a hunk to a virtual branch")];
                    assert(effects_view(v@) =~= hunk_moved_repo(old(repo)@, branch_id, p, result_view(result)).1);
                    v
                },
                Err(e) => {
                    assert(branches_view(repo.virtual_branches@) =~= set_pending(old_view, k as int, false));
                    push_error(repo, "Move hunk to virtual branch: ", &e);
                    Vec::new()
                },
            }
        },
    }
}

/// The next branch id of the repository with id `repo_id` can still be advanced.
pub open spec fn id_allocatable(s: AppStateView, repo_id: RepoId) -> bool {
    match repo_position(s.repos, repo_id) {
        None => true,
        Some(i) => s.repos[i].next_virtual_branch_id < u64::MAX,
    }
}

/// Creates a branch with the next id, named `name` or `Branch <id>` when `name`
/// is blank; it starts applied, not pending, with no paths and no stored patch.
pub fn create_virtual_branch(state: &mut AppState, repo_id: RepoId, name: String) -> (res: Vec<Effect>)
    requires
        rev_bumpable(old(state)@, repo_id),
        id_allocatable(old(state)@, repo_id),
    ensures
        final(state)@ == lift_state(old(state)@, repo_id, |r: RepoStateView| create_repo(r, name@)),
        effects_view(res@) == lift_effects(old(state)@, repo_id, |r: RepoStateView| create_repo(r, name@)),
{
    let ghost before = state.repos@;
    match find_repo_index(&state.repos, repo_id) {
        None => Vec::new(),
        Some(i) => {
            let res = create_in_repo(&mut state.repos[i], name);
            proof {
                lemma_repos_view_update(before, state.repos@, i as int);
            }
            res
        },
    }
}

/// Renames the branch; a blank name leaves it as it is.
pub fn rename_virtual_branch(state: &mut AppState, repo_id: RepoId, branch_id: u64, name: String) -> (res: Vec<Effect>)
    requires
        lift_effects(old(state)@, repo_id, |r: RepoStateView| rename_repo(r, branch_id, name@)).len() > 0 ==> rev_bumpable(
            old(state)@,
            repo_id,
        ),
    ensures
        final(state)@ == lift_state(old(state)@, repo_id, |r: RepoStateView| rename_repo(r, branch_id, name@)),
        effects_view(res@) == lift_effects(old(state)@, repo_id, |r: RepoStateView| rename_repo(r, branch_id, name@)),
{
    let ghost before = state.repos@;
    match find_repo_index(&state.repos, repo_id) {
        None => Vec::new(),
        Some(i) => {
            let res = rename_in_repo(&mut state.repos[i], branch_id, name);
            proof {
                lemma_repos_view_update(before, state.repos@, i as int);
            }
            res
        },
    }
}

/// Removes every branch with id `branch_id`.
pub fn delete_virtual_branch(state: &mut AppState, repo_id: RepoId, branch_id: u64) -> (res: Vec<Effect>)
    requires
        rev_bumpable(old(state)@, repo_id),
    ensures
        final(state)@ == lift_state(old(state)@, repo_id, |r: RepoStateView| delete_repo(r, branch_id)),
        effects_view(res@) == lift_effects(old(state)@, repo_id, |r: RepoStateView| delete_repo(r, branch_id)),
{
    let ghost before = state.repos@;
    match find_repo_index(&state.repos, repo_id) {
        None => Vec::new(),
        Some(i) => {
            let res = delete_in_repo(&mut state.repos[i], branch_id);
            proof {
                lemma_repos_view_update(before, state.repos@, i as int);
            }
            res
        },
    }
}

/// Bulk-removes the branches whose ids are listed (used by the stale-branch
/// cleanup after user confirmation); nothing happens when none of them exists.
pub fn prune_virtual_branches(state: &mut AppState, repo_id: RepoId, branch_ids: Vec<u64>) -> (res: Vec<Effect>)
    requires
        lift_effects(old(state)@, repo_id, |r: RepoStateView| prune_repo(r, branch_ids@)).len() > 0 ==> rev_bumpable(
            old(state)@,
            repo_id,
        ),
    ensures
        final(state)@ == lift_state(old(state)@, repo_id, |r: RepoStateView| prune_repo(r, branch_ids@)),
        effects_view(res@) == lift_effects(old(state)@, repo_id, |r: RepoStateView| prune_repo(r, branch_ids@)),
{
    let ghost before = state.repos@;
    match find_repo_index(&state.repos, repo_id) {
        None => Vec::new(),
        Some(i) => {
            let res = prune_in_repo(&mut state.repos[i], branch_ids);
            proof {
                lemma_repos_view_update(before, state.repos@, i as int);
            }
            res
        },
    }
}

/// Assigns `path` to the branch: the path is removed from every other branch
/// first (a path belongs to at most one virtual branch).
pub fn assign_path_to_virtual_branch(state: &mut AppState, repo_id: RepoId, branch_id: u64, path: String) -> (res: Vec<Effect>)
    requires
        lift_effects(old(state)@, repo_id, |r: RepoStateView| assign_repo(r, branch_id, path@)).len() > 0 ==> rev_bumpable(
            old(state)@,
            repo_id,
        ),
    ensures
        final(state)@ == lift_state(old(state)@, repo_id, |r: RepoStateView| assign_repo(r, branch_id, path@)),
        effects_view(res@) == lift_effects(old(state)@, repo_id, |r: RepoStateView| assign_repo(r, branch_id, path@)),
{
    let ghost before = state.repos@;
    match find_repo_index(&state.repos, repo_id) {
        None => Vec::new(),
        Some(i) => {
            let res = assign_in_repo(&mut state.repos[i], branch_id, path);
            proof {
                lemma_repos_view_update(before, state.repos@, i as int);
            }
            res
        },
    }
}

/// Removes `path` from the branch.
pub fn unassign_path_from_virtual_branch(state: &mut AppState, repo_id: RepoId, branch_id: u64, path: String) -> (res: Vec<Effect>)
    requires
        lift_effects(old(state)@, repo_id, |r: RepoStateView| unassign_repo(r, branch_id, path@)).len() > 0 ==> rev_bumpable(
            old(state)@,
            repo_id,
        ),
    ensures
        final(state)@ == lift_state(old(state)@, repo_id, |r: RepoStateView| unassign_repo(r, branch_id, path@)),
        effects_view(res@) == lift_effects(old(state)@, repo_id, |r: RepoStateView| unassign_repo(r, branch_id, path@)),
{
    let ghost before = state.repos@;
    match find_repo_index(&state.repos, repo_id) {
        None => Vec::new(),
        Some(i) => {
            let res = unassign_in_repo(&mut state.repos[i], branch_id, path);
            proof {
                lemma_repos_view_update(before, state.repos@, i as int);
            }
            res
        },
    }
}

/// Asks the worker to park an applied, idle branch's paths; marks it pending.
pub fn unapply_virtual_branch(state: &mut AppState, repo_id: RepoId, branch_id: u64) -> (res: Vec<Effect>)
    ensures
        final(state)@ == lift_state(old(state)@, repo_id, |r: RepoStateView| unapply_repo(r, repo_id, branch_id)),
        effects_view(res@) == lift_effects(old(state)@, repo_id, |r: RepoStateView| unapply_repo(r, repo_id, branch_id)),
{
    let ghost before = state.repos@;
    match find_repo_index(&state.repos, repo_id) {
        None => Vec::new(),
        Some(i) => {
            let res = unapply_in_repo(&mut state.repos[i], repo_id, branch_id);
            proof {
                lemma_repos_view_update(before, state.repos@, i as int);
            }
            res
        },
    }
}

/// Asks the worker to restore an unapplied, idle branch's stored patch; marks it pending.
pub fn apply_virtual_branch(state: &mut AppState, repo_id: RepoId, branch_id: u64) -> (res: Vec<Effect>)
    ensures
        final(state)@ == lift_state(old(state)@, repo_id, |r: RepoStateView| apply_repo(r, repo_id, branch_id)),
        effects_view(res@) == lift_effects(old(state)@, repo_id, |r: RepoStateView| apply_repo(r, repo_id, branch_id)),
{
    let ghost before = state.repos@;
    match find_repo_index(&state.repos, repo_id) {
        None => Vec::new(),
        Some(i) => {
            let res = apply_in_repo(&mut state.repos[i], repo_id, branch_id);
            proof {
                lemma_repos_view_update(before, state.repos@, i as int);
            }
            res
        },
    }
}

/// Records the worker's answer to an unapply: the captured diff is appended to
/// the stored patch and the branch becomes unapplied, or the error is reported.
pub fn virtual_branch_unapplied(state: &mut AppState, repo_id: RepoId, branch_id: u64, result: Result<String, String>) -> (res: Vec<Effect>)
    requires
        lift_effects(old(state)@, repo_id, |r: RepoStateView| unapplied_repo(r, branch_id, result_view(result))).len() > 0 ==> rev_bumpable(
            old(state)@,
            repo_id,
        ),
    ensures
        final(state)@ == lift_state(old(state)@, repo_id, |r: RepoStateView| unapplied_repo(r, branch_id, result_view(result))),
        effects_view(res@) == lift_effects(old(state)@, repo_id, |r: RepoStateView| unapplied_repo(r, branch_id, result_view(result))),
{
    let ghost before = state.repos@;
    match find_repo_index(&state.repos, repo_id) {
        None => Vec::new(),
        Some(i) => {
            let res = unapplied_in_repo(&mut state.repos[i], branch_id, result);
            proof {
                lemma_repos_view_update(before, state.repos@, i as int);
            }
            res
        },
    }
}

/// Records the worker's answer to an apply: the branch becomes applied and its
/// stored patch is dropped, or the error is reported.
pub fn virtual_branch_applied(state: &mut AppState, repo_id: RepoId, branch_id: u64, result: Result<(), String>) -> (res: Vec<Effect>)
    requires
        lift_effects(old(state)@, repo_id, |r: RepoStateView| applied_repo(r, branch_id, unit_result_view(result))).len() > 0 ==> rev_bumpable(
            old(state)@,
            repo_id,
        ),
    ensures
        final(state)@ == lift_state(old(state)@, repo_id, |r: RepoStateView| applied_repo(r, branch_id, unit_result_view(result))),
        effects_view(res@) == lift_effects(old(state)@, repo_id, |r: RepoStateView| applied_repo(r, branch_id, unit_result_view(result))),
{
    let ghost before = state.repos@;
    match find_repo_index(&state.repos, repo_id) {
        None => Vec::new(),
        Some(i) => {
            let res = applied_in_repo(&mut state.repos[i], branch_id, result);
            proof {
                lemma_repos_view_update(before, state.repos@, i as int);
            }
            res
        },
    }
}

/// Asks the worker to reverse-apply a hunk so it can be parked in the branch;
/// a blank patch or a pending branch is left alone.
pub fn move_hunk_to_virtual_branch(state: &mut AppState, repo_id: RepoId, branch_id: u64, patch: String, path: String) -> (res: Vec<Effect>)
    ensures
        final(state)@ == lift_state(old(state)@, repo_id, |r: RepoStateView| move_hunk_repo(r, repo_id, branch_id, patch@, path@)),
        effects_view(res@) == lift_effects(old(state)@, repo_id, |r: RepoStateView| move_hunk_repo(r, repo_id, branch_id, patch@, path@)),
{
    let ghost before = state.repos@;
    match find_repo_index(&state.repos, repo_id) {
        None => Vec::new(),
        Some(i) => {
            let res = move_hunk_in_repo(&mut state.repos[i], repo_id, branch_id, patch, path);
            proof {
                lemma_repos_view_update(before, state.repos@, i as int);
            }
            res
        },
    }
}

/// Parks a single hunk (already reverse-applied to the worktree by the worker)
/// into the branch's stored patch and moves the hunk's file to the branch; the
/// branch is marked unapplied so `Apply` restores the parked hunks (undo).
pub fn virtual_branch_hunk_moved(state: &mut AppState, repo_id: RepoId, branch_id: u64, path: String, result: Result<String, String>) -> (res: Vec<Effect>)
    requires
        lift_effects(old(state)@, repo_id, |r: RepoStateView| hunk_moved_repo(r, branch_id, path@, result_view(result))).len() > 0 ==> rev_bumpable(
            old(state)@,
            repo_id,
        ),
    ensures
        final(state)@ == lift_state(old(state)@, repo_id, |r: RepoStateView| hunk_moved_repo(r, branch_id, path@, result_view(result))),
        effects_view(res@) == lift_effects(old(state)@, repo_id, |r: RepoStateView| hunk_moved_repo(r, branch_id, path@, result_view(result))),
{
    let ghost before = state.repos@;
    match find_repo_index(&state.repos, repo_id) {
        None => Vec::new(),
        Some(i) => {
            let res = hunk_moved_in_repo(&mut state.repos[i], branch_id, path, result);
            proof {
                lemma_repos_view_update(before, state.repos@, i as int);
            }
            res
        },
    }
}

} // verus!
