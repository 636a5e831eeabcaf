//! Ordering commits selected for a replay (cherry-pick, rebase) so that every
//! commit comes after the selected commits it descends from.
//!
//! `deps[d]` lists the positions (in the selection) of the nearest selected
//! ancestors of the commit at position `d`. Among the commits whose
//! ancestors are all placed, the one earliest in the selection goes next.
use vstd::prelude::*;

verus! {

/// Position `p` of `order` comes after every dependency of the commit there.
pub open spec fn deps_before(deps: Seq<Seq<usize>>, order: Seq<usize>, p: int) -> bool {
    forall|j: int|
        0 <= j < deps[order[p] as int].len() ==> placed_before(
            order,
            p,
            #[trigger] deps[order[p] as int][j],
        )
}

/// `a` appears in `order` before position `p`.
pub open spec fn placed_before(order: Seq<usize>, p: int, a: usize) -> bool {
    exists|q: int| 0 <= q < p && order[q] == a
}

/// `x` appears in `order`.
pub open spec fn listed(order: Seq<usize>, x: int) -> bool {
    exists|p: int| 0 <= p < order.len() && order[p] == x
}

/// `order` lists every position `0..n` once, each after its dependencies.
pub open spec fn valid_order(deps: Seq<Seq<usize>>, order: Seq<usize>) -> bool {
    &&& forall|p: int| 0 <= p < order.len() ==> #[trigger] order[p] < deps.len()
    &&& forall|p: int, q: int| 0 <= p < q < order.len() ==> order[p] != order[q]
    &&& forall|x: int| 0 <= x < deps.len() ==> #[trigger] listed(order, x)
    &&& forall|p: int| 0 <= p < order.len() ==> #[trigger] deps_before(deps, order, p)
}

pub open spec fn deps_view(deps: Seq<Vec<usize>>) -> Seq<Seq<usize>> {
    deps.map_values(|d: Vec<usize>| d@)
}

/// Some order lists every commit after its dependencies.
pub open spec fn orderable(deps: Seq<Seq<usize>>) -> bool {
    exists|order: Seq<usize>| #[trigger] valid_order(deps, order)
}

/// Commit `x` is not yet placed in `placed` and all its dependencies are.
pub open spec fn ready(deps: Seq<Seq<usize>>, placed: Seq<usize>, x: int) -> bool {
    &&& 0 <= x < deps.len()
    &&& !placed.contains(x as usize)
    &&& forall|j: int| 0 <= j < deps[x].len() ==> placed.contains(#[trigger] deps[x][j])
}

/// Each position holds the earliest commit that was ready at that point.
pub open spec fn greedy(deps: Seq<Seq<usize>>, order: Seq<usize>) -> bool {
    forall|p: int|
        0 <= p < order.len() ==> {
            &&& ready(deps, order.take(p), #[trigger] order[p] as int)
            &&& forall|y: int| 0 <= y < order[p] ==> !ready(deps, order.take(p), y)
        }
}

/// The selection cannot be ordered: the dependencies form a cycle (or name a
/// position outside the selection).
#[derive(Clone, Copy, Debug, PartialEq, Eq, Structural)]
pub struct CycleError;

/// Number of `false` entries.
pub open spec fn count_false(s: Seq<bool>) -> nat
    decreases s.len(),
{
    if s.len() == 0 {
        0
    } else {
        count_false(s.drop_last()) + if !s.last() {
            1nat
        } else {
            0nat
        }
    }
}

proof fn lemma_count_false_set(s: Seq<bool>, i: int)
    requires
        0 <= i < s.len(),
        !s[i],
    ensures
        count_false(s.update(i, true)) + 1 == count_false(s),
    decreases s.len(),
{
    let u = s.update(i, true);
    if i == s.len() - 1 {
        assert(u.drop_last() =~= s.drop_last());
    } else {
        lemma_count_false_set(s.drop_last(), i);
        assert(u.drop_last() =~= s.drop_last().update(i, true));
    }
}

/// No order exists when some non-empty set of commits each depend on one
/// another inside the set or on something outside the selection.
proof fn lemma_stuck_means_no_order(deps: Seq<Seq<usize>>, stuck: Seq<bool>, order: Seq<usize>)
    requires
        stuck.len() == deps.len(),
        exists|x: int| 0 <= x < deps.len() && stuck[x],
        forall|x: int|
            0 <= x < deps.len() && #[trigger] stuck[x] ==> exists|j: int|
                0 <= j < deps[x].len() && (deps[x][j] >= deps.len() || stuck[deps[x][j] as int]),
    ensures
        !valid_order(deps, order),
{
    if valid_order(deps, order) {
        // no position holds a stuck commit
        assert forall|k: int| 0 <= k < order.len() implies !stuck[#[trigger] order[k] as int] by {
            lemma_no_stuck_before(deps, stuck, order, k);
        }
        let x = choose|x: int| 0 <= x < deps.len() && stuck[x];
        assert(listed(order, x));
        let p = choose|p: int| 0 <= p < order.len() && order[p] == x;
        assert(!stuck[order[p] as int]);
    }
}

proof fn lemma_no_stuck_before(deps: Seq<Seq<usize>>, stuck: Seq<bool>, order: Seq<usize>, k: int)
    requires
        stuck.len() == deps.len(),
        valid_order(deps, order),
        0 <= k < order.len(),
        forall|x: int|
            0 <= x < deps.len() && #[trigger] stuck[x] ==> exists|j: int|
                0 <= j < deps[x].len() && (deps[x][j] >= deps.len() || stuck[deps[x][j] as int]),
    ensures
        !stuck[order[k] as int],
    decreases k,
{
    let x = order[k] as int;
    assert(x < deps.len());
    if stuck[x] {
        let j = choose|j: int|
            0 <= j < deps[x].len() && (deps[x][j] >= deps.len() || stuck[deps[x][j] as int]);
        assert(deps_before(deps, order, k));
        let a = deps[x][j];
        assert(placed_before(order, k, a));
        let q = choose|q: int| 0 <= q < k && order[q] == a;
        assert(order[q] < deps.len());
        lemma_no_stuck_before(deps, stuck, order, q);
    }
}

proof fn lemma_deps_before_extend(ds: Seq<Seq<usize>>, before: Seq<usize>, f: usize, p: int)
    requires
        0 <= p < before.len(),
        deps_before(ds, before, p),
    ensures
        deps_before(ds, before.push(f), p),
{
    let after = before.push(f);
    assert(after[p] == before[p]);
    assert forall|j: int| 0 <= j < ds[after[p] as int].len() implies placed_before(
        after,
        p,
        #[trigger] ds[after[p] as int][j],
    ) by {
        let t = ds[before[p] as int][j];
        assert(placed_before(before, p, t));
        let q = choose|q: int| 0 <= q < p && before[q] == t;
        assert(after[q] == before[q]);
    }
}

fn is_placed(placed: &Vec<bool>, a: usize) -> (res: bool)
    ensures
        res == (a < placed@.len() && placed@[a as int]),
{
    a < placed.len() && placed[a]
}

/// Orders the selection: each commit after its dependencies, ties broken by
/// selection position. Fails exactly when no such order exists.
pub fn topological_replay_order(deps: &Vec<Vec<usize>>) -> (res: Result<Vec<usize>, CycleError>)
    ensures
        match res {
            Ok(order) => valid_order(deps_view(deps@), order@) && greedy(
                deps_view(deps@),
                order@,
            ),
            Err(_) => !orderable(deps_view(deps@)),
        },
{
    let ghost ds = deps_view(deps@);
    let n = deps.len();
    let mut placed: Vec<bool> = Vec::new();
    let mut i: usize = 0;
    while i < n
        invariant
            i <= n,
            placed@.len() == i,
            forall|x: int| 0 <= x < i ==> !placed@[x],
        decreases n - i,
    {
        placed.push(false);
        i += 1;
    }
    let mut order: Vec<usize> = Vec::new();
    loop
        invariant
            n == deps@.len() == ds.len() == placed@.len(),
            ds == deps_view(deps@),
            forall|x: int| 0 <= x < n ==> (#[trigger] placed@[x] <==> order@.contains(x as usize)),
            forall|p: int| 0 <= p < order@.len() ==> #[trigger] order@[p] < n,
            forall|p: int, q: int| 0 <= p < q < order@.len() ==> order@[p] != order@[q],
            forall|p: int| 0 <= p < order@.len() ==> #[trigger] deps_before(ds, order@, p),
            greedy(ds, order@),
        decreases count_false(placed@),
    {
        // the earliest commit whose dependencies are all placed
        let mut found: Option<usize> = None;
        let mut x: usize = 0;
        while x < n
            invariant
                n == deps@.len() == ds.len() == placed@.len(),
                ds == deps_view(deps@),
                forall|y: int| 0 <= y < n ==> (#[trigger] placed@[y] <==> order@.contains(y as usize)),
                forall|p: int| 0 <= p < order@.len() ==> #[trigger] order@[p] < n,
                x <= n,
                found is None ==> forall|y: int| 0 <= y < x ==> !ready(ds, order@, y),
                found matches Some(f) ==> f < n && ready(ds, order@, f as int) && forall|y: int|
                    0 <= y < f ==> !ready(ds, order@, y),
            decreases n - x,
        {
            if found.is_none() && !placed[x] {
                let d = &deps[x];
                let mut all = true;
                let mut j: usize = 0;
                while j < d.len()
                    invariant
                        n == placed@.len() == ds.len(),
                        x < n,
                        d@ == ds[x as int],
                        forall|y: int| 0 <= y < n ==> (#[trigger] placed@[y] <==> order@.contains(y as usize)),
                        forall|p: int| 0 <= p < order@.len() ==> #[trigger] order@[p] < n,
                        j <= d@.len(),
                        all ==> forall|k: int| 0 <= k < j ==> order@.contains(#[trigger] d@[k]),
                        !all ==> exists|k: int| 0 <= k < d@.len() && !order@.contains(#[trigger] d@[k]),
                    decreases d@.len() - j,
                {
                    if !is_placed(&placed, d[j]) {
                        proof {
                            if order@.contains(d@[j as int]) {
                                let p = choose|p: int| 0 <= p < order@.len() && order@[p] == d@[j as int];
                                assert(order@[p] < n);
                            }
                        }
                        all = false;
                    }
                    j += 1;
                }
                if all {
                    found = Some(x);
                }
            }
            x += 1;
        }
        match found {
            Some(f) => {
                let ghost before = order@;
                let ghost pl = placed@;
                proof {
                    lemma_count_false_set(pl, f as int);
                }
                placed.set(f, true);
                order.push(f);
                proof {
                    assert(order@.take(before.len() as int) =~= before);
                    assert forall|y: int| 0 <= y < n implies (#[trigger] placed@[y]
                        <==> order@.contains(y as usize)) by {
                        if y != f {
                            if order@.contains(y as usize) {
                                let p = choose|p: int| 0 <= p < order@.len() && order@[p] == y as usize;
                                assert(before[p] == y as usize);
                            }
                            if before.contains(y as usize) {
                                let p = choose|p: int| 0 <= p < before.len() && before[p] == y as usize;
                                assert(order@[p] == y as usize);
                            }
                        } else {
                            assert(order@[before.len() as int] == f);
                        }
                    }
                    assert forall|p: int, q: int| 0 <= p < q < order@.len() implies order@[p] != order@[q] by {
                        if q == before.len() {
                            assert(!before.contains(f));
                            assert(before[p] == order@[p]);
                        }
                    }
                    assert forall|p: int| 0 <= p < order@.len() implies #[trigger] deps_before(ds, order@, p) by {
                        if p < before.len() {
                            lemma_deps_before_extend(ds, before, f, p);
                        } else {
                            assert forall|j: int| 0 <= j < ds[order@[p] as int].len() implies placed_before(
                                order@,
                                p,
                                #[trigger] ds[order@[p] as int][j],
                            ) by {
                                assert(before.contains(ds[f as int][j]));
                                let q = choose|q: int| 0 <= q < before.len() && before[q] == ds[f as int][j];
                                assert(order@[q] == before[q]);
                            }
                        }
                    }
                    assert forall|p: int| 0 <= p < order@.len() implies {
                        &&& ready(ds, order@.take(p), #[trigger] order@[p] as int)
                        &&& forall|y: int| 0 <= y < order@[p] ==> !ready(ds, order@.take(p), y)
                    } by {
                        if p < before.len() {
                            assert(order@.take(p) =~= before.take(p));
                        }
                    }
                }
            },
            None => {
                // nothing is ready: either every commit is placed, or the rest is stuck
                let mut k: usize = 0;
                while k < n
                    invariant
                        n == placed@.len() == ds.len(),
                        ds == deps_view(deps@),
                        forall|y: int| 0 <= y < n ==> (#[trigger] placed@[y] <==> order@.contains(y as usize)),
                        forall|p: int| 0 <= p < order@.len() ==> #[trigger] order@[p] < n,
                        forall|y: int| 0 <= y < n ==> !ready(ds, order@, y),
                        k <= n,
                        forall|y: int| 0 <= y < k ==> placed@[y],
                    decreases n - k,
                {
                    if !placed[k] {
                        proof {
                            let stuck = placed@.map_values(|b: bool| !b);
                            assert forall|y: int| 0 <= y < ds.len() && #[trigger] stuck[y] implies exists|j: int|
                                0 <= j < ds[y].len() && (ds[y][j] >= ds.len() || stuck[ds[y][j] as int]) by {
                                assert(!ready(ds, order@, y));
                                assert(!order@.contains(y as usize));
                                let j = choose|j: int| 0 <= j < ds[y].len() && !order@.contains(#[trigger] ds[y][j]);
                                if ds[y][j] < ds.len() {
                                    assert(!placed@[ds[y][j] as int]);
                                }
                            }
                            assert(stuck[k as int]);
                            if orderable(ds) {
                                let o = choose|o: Seq<usize>| #[trigger] valid_order(ds, o);
                                lemma_stuck_means_no_order(ds, stuck, o);
                            }
                        }
                        return Err(CycleError);
                    }
                    k += 1;
                }
                proof {
                    assert forall|x: int| 0 <= x < ds.len() implies #[trigger] listed(order@, x) by {
                        assert(placed@[x]);
                        assert(order@.contains(x as usize));
                    }
                }
                return Ok(order);
            },
        }
    }
}

} // verus!
