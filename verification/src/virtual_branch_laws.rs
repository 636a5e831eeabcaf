//! What every virtual-branch operation keeps, and what a park/restore cycle undoes.
use vstd::prelude::*;
use crate::model::{RepoId, RepoStateView, VirtualBranchView};
use crate::virtual_branches::{
    apply_repo, applied_repo, assign_repo, branch_position, create_repo, delete_repo,
    hunk_moved_repo, is_first_branch, merged_patch, move_hunk_repo, moved_path, parked,
    prune_repo, rename_repo, strip_path, unapplied_repo, unapply_repo,
    unassign_repo, without_branch, without_branches, without_path, EffectView, RepoOutcome,
};
use crate::text::{is_blank, trim_end};

verus! {

/// One reducer operation on a repository's virtual branches.
pub enum BranchOp {
    Create { name: Seq<char> },
    Rename { branch_id: u64, name: Seq<char> },
    Delete { branch_id: u64 },
    Prune { branch_ids: Seq<u64> },
    Assign { branch_id: u64, path: Seq<char> },
    Unassign { branch_id: u64, path: Seq<char> },
    Unapply { repo_id: RepoId, branch_id: u64 },
    Apply { repo_id: RepoId, branch_id: u64 },
    Unapplied { branch_id: u64, result: Result<Seq<char>, Seq<char>> },
    Applied { branch_id: u64, result: Result<(), Seq<char>> },
    MoveHunk { repo_id: RepoId, branch_id: u64, patch: Seq<char>, path: Seq<char> },
    HunkMoved { branch_id: u64, path: Seq<char>, result: Result<Seq<char>, Seq<char>> },
}

/// The outcome of `op` on the repository, as the reducer functions state it.
pub open spec fn outcome(r: RepoStateView, op: BranchOp) -> RepoOutcome {
    match op {
        BranchOp::Create { name } => create_repo(r, name),
        BranchOp::Rename { branch_id, name } => rename_repo(r, branch_id, name),
        BranchOp::Delete { branch_id } => delete_repo(r, branch_id),
        BranchOp::Prune { branch_ids } => prune_repo(r, branch_ids),
        BranchOp::Assign { branch_id, path } => assign_repo(r, branch_id, path),
        BranchOp::Unassign { branch_id, path } => unassign_repo(r, branch_id, path),
        BranchOp::Unapply { repo_id, branch_id } => unapply_repo(r, repo_id, branch_id),
        BranchOp::Apply { repo_id, branch_id } => apply_repo(r, repo_id, branch_id),
        BranchOp::Unapplied { branch_id, result } => unapplied_repo(r, branch_id, result),
        BranchOp::Applied { branch_id, result } => applied_repo(r, branch_id, result),
        BranchOp::MoveHunk { repo_id, branch_id, patch, path } => move_hunk_repo(
            r,
            repo_id,
            branch_id,
            patch,
            path,
        ),
        BranchOp::HunkMoved { branch_id, path, result } => hunk_moved_repo(
            r,
            branch_id,
            path,
            result,
        ),
    }
}

/// How many times `p` occurs in `paths`.
pub open spec fn count_path(paths: Seq<Seq<char>>, p: Seq<char>) -> nat
    decreases paths.len(),
{
    if paths.len() == 0 {
        0
    } else {
        count_path(paths.drop_last(), p) + if paths.last() == p {
            1nat
        } else {
            0nat
        }
    }
}

/// How many times `p` occurs over the paths of all branches.
pub open spec fn owners(vbs: Seq<VirtualBranchView>, p: Seq<char>) -> nat
    decreases vbs.len(),
{
    if vbs.len() == 0 {
        0
    } else {
        owners(vbs.drop_last(), p) + count_path(vbs.last().paths, p)
    }
}

/// Every path belongs to at most one branch, once.
pub open spec fn paths_exclusive(vbs: Seq<VirtualBranchView>) -> bool {
    forall|p: Seq<char>| #[trigger] owners(vbs, p) <= 1
}

/// Branch ids are distinct and below the next id to be handed out.
pub open spec fn ids_valid(r: RepoStateView) -> bool {
    &&& forall|i: int| 0 <= i < r.virtual_branches.len() ==> #[trigger] r.virtual_branches[i].id
        < r.next_virtual_branch_id
    &&& forall|i: int, j: int|
        0 <= i < j < r.virtual_branches.len() ==> #[trigger] r.virtual_branches[i].id
            != #[trigger] r.virtual_branches[j].id
}

proof fn lemma_count_without_path(paths: Seq<Seq<char>>, p: Seq<char>, q: Seq<char>)
    ensures
        count_path(without_path(paths, p), q) == if q == p {
            0
        } else {
            count_path(paths, q)
        },
    decreases paths.len(),
{
    if paths.len() > 0 {
        lemma_count_without_path(paths.drop_last(), p, q);
        let rest = without_path(paths.drop_last(), p);
        if paths.last() != p {
            assert(rest.push(paths.last()).drop_last() =~= rest);
        }
    }
}

proof fn lemma_count_push(paths: Seq<Seq<char>>, x: Seq<char>, q: Seq<char>)
    ensures
        count_path(paths.push(x), q) == count_path(paths, q) + if x == q {
            1nat
        } else {
            0nat
        },
{
    assert(paths.push(x).drop_last() =~= paths);
}

proof fn lemma_owners_push(vbs: Seq<VirtualBranchView>, b: VirtualBranchView, q: Seq<char>)
    ensures
        owners(vbs.push(b), q) == owners(vbs, q) + count_path(b.paths, q),
{
    assert(vbs.push(b).drop_last() =~= vbs);
}

proof fn lemma_owners_update(vbs: Seq<VirtualBranchView>, k: int, b: VirtualBranchView, q: Seq<char>)
    requires
        0 <= k < vbs.len(),
    ensures
        owners(vbs.update(k, b), q) + count_path(vbs[k].paths, q) == owners(vbs, q) + count_path(
            b.paths,
            q,
        ),
    decreases vbs.len(),
{
    let u = vbs.update(k, b);
    if k == vbs.len() - 1 {
        assert(u.drop_last() =~= vbs.drop_last());
    } else {
        lemma_owners_update(vbs.drop_last(), k, b, q);
        assert(u.drop_last() =~= vbs.drop_last().update(k, b));
    }
}

proof fn lemma_owners_without_branch(vbs: Seq<VirtualBranchView>, id: u64, q: Seq<char>)
    ensures
        owners(without_branch(vbs, id), q) <= owners(vbs, q),
    decreases vbs.len(),
{
    if vbs.len() > 0 {
        lemma_owners_without_branch(vbs.drop_last(), id, q);
        let rest = without_branch(vbs.drop_last(), id);
        if vbs.last().id != id {
            lemma_owners_push(rest, vbs.last(), q);
        }
    }
}

proof fn lemma_owners_without_branches(vbs: Seq<VirtualBranchView>, ids: Seq<u64>, q: Seq<char>)
    ensures
        owners(without_branches(vbs, ids), q) <= owners(vbs, q),
    decreases vbs.len(),
{
    if vbs.len() > 0 {
        lemma_owners_without_branches(vbs.drop_last(), ids, q);
        let rest = without_branches(vbs.drop_last(), ids);
        if !ids.contains(vbs.last().id) {
            lemma_owners_push(rest, vbs.last(), q);
        }
    }
}

proof fn lemma_owners_strip(vbs: Seq<VirtualBranchView>, p: Seq<char>, q: Seq<char>)
    ensures
        owners(strip_path(vbs, p), q) == if q == p {
            0
        } else {
            owners(vbs, q)
        },
    decreases vbs.len(),
{
    if vbs.len() > 0 {
        lemma_owners_strip(vbs.drop_last(), p, q);
        assert(strip_path(vbs, p).drop_last() =~= strip_path(vbs.drop_last(), p));
        lemma_count_without_path(vbs.last().paths, p, q);
    }
}

/// Replacing a branch by one with the same paths keeps every path's owners.
proof fn lemma_owners_same_paths(vbs: Seq<VirtualBranchView>, k: int, b: VirtualBranchView, q: Seq<char>)
    requires
        0 <= k < vbs.len(),
        b.paths == vbs[k].paths,
    ensures
        owners(vbs.update(k, b), q) == owners(vbs, q),
{
    lemma_owners_update(vbs, k, b, q);
}

proof fn lemma_owners_moved(vbs: Seq<VirtualBranchView>, k: int, p: Seq<char>, q: Seq<char>)
    requires
        0 <= k < vbs.len(),
    ensures
        owners(moved_path(vbs, k, p), q) == if q == p {
            1
        } else {
            owners(vbs, q)
        },
{
    let s = strip_path(vbs, p);
    lemma_owners_strip(vbs, p, q);
    lemma_owners_strip(vbs, p, p);
    let b = VirtualBranchView { paths: s[k].paths.push(p), ..s[k] };
    lemma_owners_update(s, k, b, q);
    lemma_count_push(s[k].paths, p, q);
    // the stripped branch holds no copy of `p`
    lemma_count_without_path(vbs[k].paths, p, p);
    lemma_owners_update(s, k, b, p);
    lemma_owners_nonneg_parts(s, k, p);
}

proof fn lemma_owners_nonneg_parts(vbs: Seq<VirtualBranchView>, k: int, q: Seq<char>)
    requires
        0 <= k < vbs.len(),
    ensures
        count_path(vbs[k].paths, q) <= owners(vbs, q),
    decreases vbs.len(),
{
    if k < vbs.len() - 1 {
        lemma_owners_nonneg_parts(vbs.drop_last(), k, q);
    }
}

/// A path belongs to at most one virtual branch: every reducer operation keeps
/// each path on at most one branch, at most once.
pub proof fn law_paths_stay_exclusive(r: RepoStateView, op: BranchOp)
    requires
        paths_exclusive(r.virtual_branches),
    ensures
        paths_exclusive(outcome(r, op).0.virtual_branches),
{
    let vbs = r.virtual_branches;
    let after = outcome(r, op).0.virtual_branches;
    assert forall|q: Seq<char>| #[trigger] owners(after, q) <= 1 by {
        assert(owners(vbs, q) <= 1);
        match op {
            BranchOp::Create { name } => {
                let b = after.last();
                lemma_owners_push(vbs, b, q);
                assert(after =~= vbs.push(b));
            },
            BranchOp::Rename { branch_id, name } => {
                if let Some(k) = branch_position(vbs, branch_id) {
                    if !is_blank(name) {
                        lemma_owners_same_paths(vbs, k, VirtualBranchView { name, ..vbs[k] }, q);
                    }
                }
            },
            BranchOp::Delete { branch_id } => {
                lemma_owners_without_branch(vbs, branch_id, q);
            },
            BranchOp::Prune { branch_ids } => {
                lemma_owners_without_branches(vbs, branch_ids, q);
            },
            BranchOp::Assign { branch_id, path } => {
                if let Some(k) = branch_position(vbs, branch_id) {
                    lemma_owners_moved(vbs, k, path, q);
                }
            },
            BranchOp::Unassign { branch_id, path } => {
                if let Some(k) = branch_position(vbs, branch_id) {
                    let b = vbs[k];
                    let nb = VirtualBranchView { paths: without_path(b.paths, path), ..b };
                    lemma_owners_update(vbs, k, nb, q);
                    lemma_count_without_path(b.paths, path, q);
                }
            },
            BranchOp::Unapply { repo_id, branch_id } => {
                if let Some(k) = branch_position(vbs, branch_id) {
                    lemma_owners_same_paths(vbs, k, VirtualBranchView { pending: true, ..vbs[k] }, q);
                }
            },
            BranchOp::Apply { repo_id, branch_id } => {
                if let Some(k) = branch_position(vbs, branch_id) {
                    lemma_owners_same_paths(vbs, k, VirtualBranchView { pending: true, ..vbs[k] }, q);
                }
            },
            BranchOp::Unapplied { branch_id, result } => {
                if let Some(k) = branch_position(vbs, branch_id) {
                    match result {
                        Ok(patch) => {
                            lemma_owners_same_paths(vbs, k, parked(vbs, k, patch)[k], q);
                        },
                        Err(e) => {
                            lemma_owners_same_paths(vbs, k, VirtualBranchView { pending: false, ..vbs[k] }, q);
                        },
                    }
                }
            },
            BranchOp::Applied { branch_id, result } => {
                if let Some(k) = branch_position(vbs, branch_id) {
                    match result {
                        Ok(()) => {
                            lemma_owners_same_paths(
                                vbs,
                                k,
                                VirtualBranchView {
                                    applied: true,
                                    stored_patch: None,
                                    pending: false,
                                    ..vbs[k]
                                },
                                q,
                            );
                        },
                        Err(e) => {
                            lemma_owners_same_paths(vbs, k, VirtualBranchView { pending: false, ..vbs[k] }, q);
                        },
                    }
                }
            },
            BranchOp::MoveHunk { repo_id, branch_id, patch, path } => {
                if let Some(k) = branch_position(vbs, branch_id) {
                    lemma_owners_same_paths(vbs, k, VirtualBranchView { pending: true, ..vbs[k] }, q);
                }
            },
            BranchOp::HunkMoved { branch_id, path, result } => {
                if let Some(k) = branch_position(vbs, branch_id) {
                    match result {
                        Ok(patch) => {
                            let pk = parked(vbs, k, patch);
                            lemma_owners_same_paths(vbs, k, pk[k], q);
                            lemma_owners_moved(pk, k, path, q);
                        },
                        Err(e) => {
                            lemma_owners_same_paths(vbs, k, VirtualBranchView { pending: false, ..vbs[k] }, q);
                        },
                    }
                }
            },
        }
    }
}


/// Every branch of the filtered list is a branch of the original list.
proof fn lemma_without_branch_sub(vbs: Seq<VirtualBranchView>, id: u64)
    ensures
        forall|i: int|
            0 <= i < without_branch(vbs, id).len() ==> vbs.contains(
                #[trigger] without_branch(vbs, id)[i],
            ),
        without_branch(vbs, id).len() <= vbs.len(),
    decreases vbs.len(),
{
    if vbs.len() > 0 {
        let d = vbs.drop_last();
        lemma_without_branch_sub(d, id);
        let rest = without_branch(d, id);
        assert forall|i: int| 0 <= i < without_branch(vbs, id).len() implies vbs.contains(
            #[trigger] without_branch(vbs, id)[i],
        ) by {
            if i < rest.len() {
                let j = choose|j: int| 0 <= j < d.len() && d[j] == rest[i];
                assert(vbs[j] == d[j]);
            } else {
                assert(vbs[vbs.len() - 1] == vbs.last());
            }
        }
    }
}

proof fn lemma_without_branches_sub(vbs: Seq<VirtualBranchView>, ids: Seq<u64>)
    ensures
        forall|i: int|
            0 <= i < without_branches(vbs, ids).len() ==> vbs.contains(
                #[trigger] without_branches(vbs, ids)[i],
            ),
        without_branches(vbs, ids).len() <= vbs.len(),
    decreases vbs.len(),
{
    if vbs.len() > 0 {
        let d = vbs.drop_last();
        lemma_without_branches_sub(d, ids);
        let rest = without_branches(d, ids);
        assert forall|i: int| 0 <= i < without_branches(vbs, ids).len() implies vbs.contains(
            #[trigger] without_branches(vbs, ids)[i],
        ) by {
            if i < rest.len() {
                let j = choose|j: int| 0 <= j < d.len() && d[j] == rest[i];
                assert(vbs[j] == d[j]);
            } else {
                assert(vbs[vbs.len() - 1] == vbs.last());
            }
        }
    }
}

/// Branch ids are pairwise distinct.
pub open spec fn ids_distinct(vbs: Seq<VirtualBranchView>) -> bool {
    forall|i: int, j: int| 0 <= i < j < vbs.len() ==> #[trigger] vbs[i].id != #[trigger] vbs[j].id
}

proof fn lemma_without_branch_distinct(vbs: Seq<VirtualBranchView>, id: u64)
    requires
        ids_distinct(vbs),
    ensures
        ids_distinct(without_branch(vbs, id)),
    decreases vbs.len(),
{
    if vbs.len() > 0 {
        let d = vbs.drop_last();
        assert(ids_distinct(d)) by {
            assert forall|i: int, j: int| 0 <= i < j < d.len() implies #[trigger] d[i].id
                != #[trigger] d[j].id by {
                assert(d[i] == vbs[i] && d[j] == vbs[j]);
            }
        }
        lemma_without_branch_distinct(d, id);
        lemma_without_branch_sub(d, id);
        let rest = without_branch(d, id);
        if vbs.last().id != id {
            let res = rest.push(vbs.last());
            assert forall|i: int, j: int| 0 <= i < j < res.len() implies #[trigger] res[i].id
                != #[trigger] res[j].id by {
                if j == res.len() - 1 {
                    assert(d.contains(rest[i]));
                    let m = choose|m: int| 0 <= m < d.len() && d[m] == rest[i];
                    assert(vbs[m] == d[m]);
                    assert(vbs[vbs.len() - 1] == vbs.last());
                } else {
                    assert(res[i] == rest[i] && res[j] == rest[j]);
                }
            }
        }
    }
}

proof fn lemma_without_branches_distinct(vbs: Seq<VirtualBranchView>, ids: Seq<u64>)
    requires
        ids_distinct(vbs),
    ensures
        ids_distinct(without_branches(vbs, ids)),
    decreases vbs.len(),
{
    if vbs.len() > 0 {
        let d = vbs.drop_last();
        assert(ids_distinct(d)) by {
            assert forall|i: int, j: int| 0 <= i < j < d.len() implies #[trigger] d[i].id
                != #[trigger] d[j].id by {
                assert(d[i] == vbs[i] && d[j] == vbs[j]);
            }
        }
        lemma_without_branches_distinct(d, ids);
        lemma_without_branches_sub(d, ids);
        let rest = without_branches(d, ids);
        if !ids.contains(vbs.last().id) {
            let res = rest.push(vbs.last());
            assert forall|i: int, j: int| 0 <= i < j < res.len() implies #[trigger] res[i].id
                != #[trigger] res[j].id by {
                if j == res.len() - 1 {
                    assert(d.contains(rest[i]));
                    let m = choose|m: int| 0 <= m < d.len() && d[m] == rest[i];
                    assert(vbs[m] == d[m]);
                    assert(vbs[vbs.len() - 1] == vbs.last());
                } else {
                    assert(res[i] == rest[i] && res[j] == rest[j]);
                }
            }
        }
    }
}

/// The branches' ids, in order.
pub open spec fn branch_ids(vbs: Seq<VirtualBranchView>) -> Seq<u64> {
    vbs.map_values(|b: VirtualBranchView| b.id)
}

/// Branch ids stay distinct and below the next id handed out: every reducer
/// operation keeps both (creating a branch needs the id counter to advance).
pub proof fn law_ids_stay_valid(r: RepoStateView, op: BranchOp)
    requires
        ids_valid(r),
        op is Create ==> r.next_virtual_branch_id < u64::MAX,
    ensures
        ids_valid(outcome(r, op).0),
{
    let vbs = r.virtual_branches;
    let r2 = outcome(r, op).0;
    let after = r2.virtual_branches;
    assert(ids_distinct(vbs));
    match op {
        BranchOp::Create { name } => {
            assert(after =~= vbs.push(after.last()));
            assert forall|i: int, j: int| 0 <= i < j < after.len() implies #[trigger] after[i].id
                != #[trigger] after[j].id by {
                if j == after.len() - 1 {
                    assert(after[i] == vbs[i]);
                } else {
                    assert(after[i] == vbs[i] && after[j] == vbs[j]);
                }
            }
            assert forall|i: int| 0 <= i < after.len() implies #[trigger] after[i].id
                < r2.next_virtual_branch_id by {
                if i < vbs.len() {
                    assert(after[i] == vbs[i]);
                }
            }
        },
        BranchOp::Delete { branch_id } => {
            lemma_without_branch_distinct(vbs, branch_id);
            lemma_without_branch_sub(vbs, branch_id);
            assert forall|i: int| 0 <= i < after.len() implies #[trigger] after[i].id
                < r2.next_virtual_branch_id by {
                assert(vbs.contains(after[i]));
            }
        },
        BranchOp::Prune { branch_ids } => {
            lemma_without_branches_distinct(vbs, branch_ids);
            lemma_without_branches_sub(vbs, branch_ids);
            assert forall|i: int| 0 <= i < after.len() implies #[trigger] after[i].id
                < r2.next_virtual_branch_id by {
                assert(vbs.contains(after[i]));
            }
        },
        _ => {
            lemma_same_ids(r, op);
            lemma_valid_if_same_ids(r, r2);
        },
    }
}

proof fn lemma_valid_if_same_ids(r: RepoStateView, r2: RepoStateView)
    requires
        ids_valid(r),
        r2.next_virtual_branch_id == r.next_virtual_branch_id,
        r2.virtual_branches.len() == r.virtual_branches.len(),
        forall|i: int|
            0 <= i < r.virtual_branches.len() ==> #[trigger] r2.virtual_branches[i].id
                == r.virtual_branches[i].id,
    ensures
        ids_valid(r2),
{
    assert forall|i: int, j: int| 0 <= i < j < r2.virtual_branches.len() implies #[trigger] r2.virtual_branches[i].id
        != #[trigger] r2.virtual_branches[j].id by {
        assert(r.virtual_branches[i].id != r.virtual_branches[j].id);
    }
}

proof fn lemma_update_same_id(vbs: Seq<VirtualBranchView>, k: int, b: VirtualBranchView)
    requires
        0 <= k < vbs.len(),
        b.id == vbs[k].id,
    ensures
        vbs.update(k, b).len() == vbs.len(),
        forall|i: int| 0 <= i < vbs.len() ==> #[trigger] vbs.update(k, b)[i].id == vbs[i].id,
{
}

proof fn lemma_moved_same_ids(vbs: Seq<VirtualBranchView>, k: int, p: Seq<char>)
    requires
        0 <= k < vbs.len(),
    ensures
        moved_path(vbs, k, p).len() == vbs.len(),
        forall|i: int| 0 <= i < vbs.len() ==> #[trigger] moved_path(vbs, k, p)[i].id == vbs[i].id,
{
    let s = strip_path(vbs, p);
    assert forall|i: int| 0 <= i < vbs.len() implies #[trigger] s[i].id == vbs[i].id by {}
}

/// Operations other than create, delete and prune keep every branch's id in place.
proof fn lemma_same_ids(r: RepoStateView, op: BranchOp)
    requires
        !(op is Create),
        !(op is Delete),
        !(op is Prune),
    ensures
        outcome(r, op).0.next_virtual_branch_id == r.next_virtual_branch_id,
        outcome(r, op).0.virtual_branches.len() == r.virtual_branches.len(),
        forall|i: int|
            0 <= i < r.virtual_branches.len() ==> #[trigger] outcome(r, op).0.virtual_branches[i].id
                == r.virtual_branches[i].id,
{
    let vbs = r.virtual_branches;
    match op {
        BranchOp::Rename { branch_id, name } => {
            if let Some(k) = branch_position(vbs, branch_id) {
                lemma_update_same_id(vbs, k, VirtualBranchView { name, ..vbs[k] });
            }
        },
        BranchOp::Assign { branch_id, path } => {
            if let Some(k) = branch_position(vbs, branch_id) {
                lemma_moved_same_ids(vbs, k, path);
            }
        },
        BranchOp::Unassign { branch_id, path } => {
            if let Some(k) = branch_position(vbs, branch_id) {
                lemma_update_same_id(vbs, k, VirtualBranchView { paths: without_path(vbs[k].paths, path), ..vbs[k] });
            }
        },
        BranchOp::Unapply { repo_id, branch_id } => {
            if let Some(k) = branch_position(vbs, branch_id) {
                lemma_update_same_id(vbs, k, VirtualBranchView { pending: true, ..vbs[k] });
            }
        },
        BranchOp::Apply { repo_id, branch_id } => {
            if let Some(k) = branch_position(vbs, branch_id) {
                lemma_update_same_id(vbs, k, VirtualBranchView { pending: true, ..vbs[k] });
            }
        },
        BranchOp::Unapplied { branch_id, result } => {
            if let Some(k) = branch_position(vbs, branch_id) {
                match result {
                    Ok(patch) => lemma_update_same_id(vbs, k, parked(vbs, k, patch)[k]),
                    Err(e) => lemma_update_same_id(vbs, k, VirtualBranchView { pending: false, ..vbs[k] }),
                }
            }
        },
        BranchOp::Applied { branch_id, result } => {
            if let Some(k) = branch_position(vbs, branch_id) {
                match result {
                    Ok(()) => lemma_update_same_id(
                        vbs,
                        k,
                        VirtualBranchView { applied: true, stored_patch: None, pending: false, ..vbs[k] },
                    ),
                    Err(e) => lemma_update_same_id(vbs, k, VirtualBranchView { pending: false, ..vbs[k] }),
                }
            }
        },
        BranchOp::MoveHunk { repo_id, branch_id, patch, path } => {
            if let Some(k) = branch_position(vbs, branch_id) {
                lemma_update_same_id(vbs, k, VirtualBranchView { pending: true, ..vbs[k] });
            }
        },
        BranchOp::HunkMoved { branch_id, path, result } => {
            if let Some(k) = branch_position(vbs, branch_id) {
                match result {
                    Ok(patch) => {
                        let pk = parked(vbs, k, patch);
                        lemma_update_same_id(vbs, k, pk[k]);
                        lemma_moved_same_ids(pk, k, path);
                    },
                    Err(e) => lemma_update_same_id(vbs, k, VirtualBranchView { pending: false, ..vbs[k] }),
                }
            }
        },
        _ => {},
    }
}

/// Pruning ids that name no branch changes nothing and persists nothing.
pub proof fn law_prune_of_unknown_ids_is_noop(r: RepoStateView, branch_ids: Seq<u64>)
    requires
        forall|k: int| 0 <= k < r.virtual_branches.len() ==> !branch_ids.contains(
            #[trigger] r.virtual_branches[k].id,
        ),
    ensures
        prune_repo(r, branch_ids).0 == r,
        prune_repo(r, branch_ids).1.len() == 0,
{
    lemma_without_branches_keeps_all(r.virtual_branches, branch_ids);
}

proof fn lemma_without_branches_keeps_all(vbs: Seq<VirtualBranchView>, ids: Seq<u64>)
    requires
        forall|k: int| 0 <= k < vbs.len() ==> !ids.contains(#[trigger] vbs[k].id),
    ensures
        without_branches(vbs, ids) == vbs,
    decreases vbs.len(),
{
    if vbs.len() > 0 {
        let d = vbs.drop_last();
        assert forall|k: int| 0 <= k < d.len() implies !ids.contains(#[trigger] d[k].id) by {
            assert(d[k] == vbs[k]);
        }
        lemma_without_branches_keeps_all(d, ids);
        assert(!ids.contains(vbs[vbs.len() - 1].id));
        assert(d.push(vbs.last()) =~= vbs);
    }
}

/// Parking then restoring a branch gives it back: an applied, idle branch with
/// paths and no stored patch, once unapplied (the worker captures `diff`),
/// asks to be applied with exactly the captured diff (trailing whitespace
/// removed), and once that apply succeeds it is the branch it was before.
pub proof fn law_unapply_then_apply_restores_branch(
    r: RepoStateView,
    repo_id: RepoId,
    branch_id: u64,
    diff: Seq<char>,
)
    requires
        branch_position(r.virtual_branches, branch_id) matches Some(k) && {
            let b = r.virtual_branches[k];
            &&& b.applied
            &&& !b.pending
            &&& b.paths.len() > 0
            &&& b.stored_patch is None
        },
    ensures
        ({
            let k = branch_position(r.virtual_branches, branch_id)->0;
            let s1 = unapply_repo(r, repo_id, branch_id);
            let s2 = unapplied_repo(s1.0, branch_id, Ok(diff));
            let s3 = apply_repo(s2.0, repo_id, branch_id);
            let s4 = applied_repo(s3.0, branch_id, Ok(()));
            &&& s1.1 == seq![
                EffectView::UnapplyVirtualBranch {
                    repo_id,
                    branch_id,
                    paths: r.virtual_branches[k].paths,
                },
            ]
            &&& s3.1 == seq![EffectView::ApplyVirtualBranch { repo_id, branch_id, patch: trim_end(diff) }]
            &&& s4.0.virtual_branches == r.virtual_branches
        }),
{
    let k = branch_position(r.virtual_branches, branch_id)->0;
    let vbs = r.virtual_branches;
    assert(is_first_branch(vbs, branch_id, k));
    let s1 = unapply_repo(r, repo_id, branch_id);
    lemma_position_after_update(vbs, branch_id, k, VirtualBranchView { pending: true, ..vbs[k] });
    let v1 = s1.0.virtual_branches;
    let s2 = unapplied_repo(s1.0, branch_id, Ok(diff));
    let v2 = s2.0.virtual_branches;
    lemma_position_after_update(v1, branch_id, k, parked(v1, k, diff)[k]);
    assert(merged_patch(v1[k].stored_patch, diff) == trim_end(diff));
    let s3 = apply_repo(s2.0, repo_id, branch_id);
    let v3 = s3.0.virtual_branches;
    lemma_position_after_update(v2, branch_id, k, VirtualBranchView { pending: true, ..v2[k] });
    let s4 = applied_repo(s3.0, branch_id, Ok(()));
    assert(s4.0.virtual_branches =~= vbs);
}

/// Changing the branch at a branch's first position (keeping its id) keeps it first.
proof fn lemma_position_after_update(vbs: Seq<VirtualBranchView>, id: u64, k: int, b: VirtualBranchView)
    requires
        is_first_branch(vbs, id, k),
        b.id == id,
    ensures
        branch_position(vbs.update(k, b), id) == Some(k),
        branch_position(vbs, id) == Some(k),
{
    let u = vbs.update(k, b);
    assert(is_first_branch(u, id, k));
    let c = choose|c: int| is_first_branch(u, id, c);
    assert(c == k);
    let c2 = choose|c: int| is_first_branch(vbs, id, c);
    assert(c2 == k);
}

proof fn lemma_without_path_drops(paths: Seq<Seq<char>>, p: Seq<char>)
    ensures
        !without_path(paths, p).contains(p),
        forall|q: Seq<char>| q != p ==> (without_path(paths, p).contains(q) <==> paths.contains(q)),
    decreases paths.len(),
{
    if paths.len() > 0 {
        let init = paths.drop_last();
        let last = paths.last();
        lemma_without_path_drops(init, p);
        let rest = without_path(init, p);
        let w = without_path(paths, p);
        assert(paths =~= init.push(last));
        if last != p {
            assert(w == rest.push(last));
        } else {
            assert(w == rest);
        }
        assert forall|q: Seq<char>| q != p implies (w.contains(q) <==> paths.contains(q)) by {
            if paths.contains(q) {
                let k = choose|k: int| 0 <= k < paths.len() && paths[k] == q;
                if k < paths.len() - 1 {
                    assert(init[k] == q);
                    assert(init.contains(q));
                    assert(rest.contains(q));
                    let j = choose|j: int| 0 <= j < rest.len() && rest[j] == q;
                    if last != p {
                        assert(w[j] == q);
                    }
                } else {
                    assert(last == q);
                    assert(w[rest.len() as int] == q);
                }
            }
            if w.contains(q) {
                let k = choose|k: int| 0 <= k < w.len() && w[k] == q;
                if k < rest.len() {
                    assert(rest[k] == q);
                    assert(rest.contains(q));
                    assert(init.contains(q));
                    let j = choose|j: int| 0 <= j < init.len() && init[j] == q;
                    assert(paths[j] == q);
                } else {
                    assert(paths[paths.len() - 1] == q);
                }
            }
        }
        if w.contains(p) {
            let k = choose|k: int| 0 <= k < w.len() && w[k] == p;
            if k < rest.len() {
                assert(rest[k] == p);
                assert(rest.contains(p));
            }
        }
    }
}

/// Assigning a path moves it: afterwards the branch it was assigned to, and
/// no other, lists it, once and last; every other branch keeps its paths
/// without it; ids and order stay; the revision is bumped and the new
/// branches are persisted. Nothing is asked of the paths before: a path
/// listed on several branches before ends up on the one branch alone.
pub proof fn law_assign_gives_the_path_one_branch(r: RepoStateView, branch_id: u64, path: Seq<char>)
    requires
        branch_position(r.virtual_branches, branch_id) is Some,
    ensures
        ({
            let k = branch_position(r.virtual_branches, branch_id)->0;
            let (after, effects) = assign_repo(r, branch_id, path);
            let vbs = after.virtual_branches;
            &&& vbs.len() == r.virtual_branches.len()
            &&& vbs[k].id == branch_id
            &&& forall|i: int| 0 <= i < vbs.len() ==> (#[trigger] vbs[i].paths.contains(path) <==> i == k)
            &&& owners(vbs, path) == 1
            &&& count_path(vbs[k].paths, path) == 1
            &&& vbs[k].paths == without_path(r.virtual_branches[k].paths, path).push(path)
            &&& forall|i: int| 0 <= i < vbs.len() && i != k ==> #[trigger] vbs[i].paths == without_path(
                r.virtual_branches[i].paths,
                path,
            )
            &&& forall|i: int| 0 <= i < vbs.len() ==> #[trigger] vbs[i].id == r.virtual_branches[i].id
            &&& after.virtual_branches_rev == (r.virtual_branches_rev + 1) as u64
            &&& effects == seq![
                crate::virtual_branches::persist_view(after, "assigning a path to a virtual branch"@),
            ]
        }),
{
    let k = branch_position(r.virtual_branches, branch_id)->0;
    let vbs0 = r.virtual_branches;
    let c = choose|c: int| is_first_branch(vbs0, branch_id, c);
    assert(c == k);
    let vbs = moved_path(vbs0, k, path);
    let s = strip_path(vbs0, path);
    lemma_owners_moved(vbs0, k, path, path);
    assert forall|i: int| 0 <= i < vbs.len() implies (#[trigger] vbs[i].paths.contains(path) <==> i == k) by {
        lemma_without_path_drops(vbs0[i].paths, path);
        if i == k {
            assert(vbs[i].paths[vbs[i].paths.len() - 1] == path);
        } else {
            assert(vbs[i] == s[i]);
        }
    }
    lemma_count_without_path(vbs0[k].paths, path, path);
    lemma_count_push(s[k].paths, path, path);
}


/// A rename to a blank (whitespace-only) name is refused: the repository is
/// left exactly as it was and nothing is persisted, whichever branch is
/// named.
pub proof fn law_blank_rename_changes_nothing(r: RepoStateView, branch_id: u64, name: Seq<char>)
    requires
        is_blank(name),
    ensures
        rename_repo(r, branch_id, name).0 == r,
        rename_repo(r, branch_id, name).1.len() == 0,
{
}

/// The same at the level of the application state that
/// `rename_virtual_branch` updates: a blank name changes no repository and
/// returns no effects.
pub proof fn law_blank_rename_leaves_the_app_state(
    s: crate::model::AppStateView,
    repo_id: RepoId,
    branch_id: u64,
    name: Seq<char>,
)
    requires
        is_blank(name),
    ensures
        crate::virtual_branches::lift_state(s, repo_id, |r: RepoStateView| rename_repo(r, branch_id, name))
            == s,
        crate::virtual_branches::lift_effects(s, repo_id, |r: RepoStateView| rename_repo(r, branch_id, name)).len()
            == 0,
{
    match crate::model::repo_position(s.repos, repo_id) {
        None => {},
        Some(i) => {
            law_blank_rename_changes_nothing(s.repos[i], branch_id, name);
            assert(s.repos.update(i, s.repos[i]) =~= s.repos);
        },
    }
}

/// No rename gives a branch a blank name: when every branch name is
/// non-blank before, every one is after, whatever name is asked for.
pub proof fn law_rename_keeps_names_non_blank(r: RepoStateView, branch_id: u64, name: Seq<char>)
    requires
        forall|i: int| 0 <= i < r.virtual_branches.len() ==> !is_blank(#[trigger] r.virtual_branches[i].name),
    ensures
        forall|i: int| 0 <= i < rename_repo(r, branch_id, name).0.virtual_branches.len() ==> !is_blank(
            #[trigger] rename_repo(r, branch_id, name).0.virtual_branches[i].name,
        ),
{
}

} // verus!
