//! The branches pinned in the sidebar, per repository working directory:
//! pinning toggles a branch's storage key, and a repository whose last pin
//! goes away is dropped, so what is saved never holds an empty set.
use vstd::prelude::*;
use crate::model::{find_repo_index, strs_view, AppState, RepoId};
use crate::text::str_eq;
use crate::virtual_branches::clone_strings;

verus! {

/// The entries as plain values: a working directory and its pinned keys.
pub type PinEntries = Seq<(Seq<char>, Seq<Seq<char>>)>;

pub open spec fn entries_view(v: Seq<(String, Vec<String>)>) -> PinEntries {
    v.map_values(|p: (String, Vec<String>)| (p.0@, strs_view(p.1@)))
}

/// Working directories occur once, and every one holds at least one key, each
/// once.
pub open spec fn entries_wf(e: PinEntries) -> bool {
    &&& forall|i: int, j: int| 0 <= i < j < e.len() ==> (#[trigger] e[i]).0 != (#[trigger] e[j]).0
    &&& forall|i: int| 0 <= i < e.len() ==> (#[trigger] e[i]).1.len() > 0 && e[i].1.no_duplicates()
}

pub open spec fn has_repo(e: PinEntries, repo: Seq<char>) -> bool {
    exists|i: int| 0 <= i < e.len() && (#[trigger] e[i]).0 == repo
}

pub open spec fn pins(e: PinEntries, repo: Seq<char>) -> Set<Seq<char>> {
    Set::new(|k: Seq<char>| exists|i: int| 0 <= i < e.len() && (#[trigger] e[i]).0 == repo && e[i].1.contains(k))
}

pub open spec fn pins_map(e: PinEntries) -> Map<Seq<char>, Set<Seq<char>>> {
    Map::new(|r: Seq<char>| has_repo(e, r), |r: Seq<char>| pins(e, r))
}

/// No working directory is kept with nothing pinned.
pub open spec fn pins_map_wf(m: Map<Seq<char>, Set<Seq<char>>>) -> bool {
    forall|r: Seq<char>| #[trigger] m.dom().contains(r) ==> m[r] != Set::<Seq<char>>::empty()
}

/// Toggling `key` for `repo`: pinned keys are unpinned, others pinned; a
/// working directory left with no key is dropped.
pub open spec fn toggle_spec(m: Map<Seq<char>, Set<Seq<char>>>, repo: Seq<char>, key: Seq<char>) -> Map<
    Seq<char>,
    Set<Seq<char>>,
> {
    let cur = if m.dom().contains(repo) {
        m[repo]
    } else {
        Set::empty()
    };
    let next = if cur.contains(key) {
        cur.remove(key)
    } else {
        cur.insert(key)
    };
    if next == Set::<Seq<char>>::empty() {
        m.remove(repo)
    } else {
        m.insert(repo, next)
    }
}

/// Pinned branch keys per repository working directory.
pub struct PinnedBranches {
    entries: Vec<(String, Vec<String>)>,
}

impl View for PinnedBranches {
    type V = Map<Seq<char>, Set<Seq<char>>>;

    closed spec fn view(&self) -> Map<Seq<char>, Set<Seq<char>>> {
        pins_map(entries_view(self.entries@))
    }
}

proof fn lemma_pins_at(e: PinEntries, i: int)
    requires
        entries_wf(e),
        0 <= i < e.len(),
    ensures
        has_repo(e, e[i].0),
        pins(e, e[i].0) =~= Set::new(|k: Seq<char>| e[i].1.contains(k)),
{
    assert forall|k: Seq<char>| pins(e, e[i].0).contains(k) implies e[i].1.contains(k) by {
        let j = choose|j: int| 0 <= j < e.len() && (#[trigger] e[j]).0 == e[i].0 && e[j].1.contains(k);
        if j != i {
            if j < i {
                assert(e[j].0 != e[i].0);
            } else {
                assert(e[i].0 != e[j].0);
            }
        }
    }
}

proof fn lemma_pins_absent(e: PinEntries, repo: Seq<char>)
    requires
        !has_repo(e, repo),
    ensures
        pins(e, repo) =~= Set::<Seq<char>>::empty(),
{
}

/// Entries other than `repo`'s are untouched when `e2` agrees with `e` on every
/// other working directory.
proof fn lemma_same_elsewhere(e: PinEntries, e2: PinEntries, repo: Seq<char>, x: Seq<char>)
    requires
        x != repo,
        forall|i: int| 0 <= i < e.len() && (#[trigger] e[i]).0 != repo ==> exists|j: int|
            0 <= j < e2.len() && #[trigger] e2[j] == e[i],
        forall|j: int| 0 <= j < e2.len() && (#[trigger] e2[j]).0 != repo ==> exists|i: int|
            0 <= i < e.len() && #[trigger] e[i] == e2[j],
    ensures
        has_repo(e2, x) == has_repo(e, x),
        pins(e2, x) =~= pins(e, x),
{
    if has_repo(e, x) {
        let i = choose|i: int| 0 <= i < e.len() && (#[trigger] e[i]).0 == x;
        let j = choose|j: int| 0 <= j < e2.len() && #[trigger] e2[j] == e[i];
        assert(e2[j].0 == x);
    }
    if has_repo(e2, x) {
        let j = choose|j: int| 0 <= j < e2.len() && (#[trigger] e2[j]).0 == x;
        let i = choose|i: int| 0 <= i < e.len() && #[trigger] e[i] == e2[j];
        assert(e[i].0 == x);
    }
    assert forall|k: Seq<char>| pins(e, x).contains(k) implies pins(e2, x).contains(k) by {
        let i = choose|i: int| 0 <= i < e.len() && (#[trigger] e[i]).0 == x && e[i].1.contains(k);
        let j = choose|j: int| 0 <= j < e2.len() && #[trigger] e2[j] == e[i];
        assert(e2[j].0 == x && e2[j].1.contains(k));
    }
    assert forall|k: Seq<char>| pins(e2, x).contains(k) implies pins(e, x).contains(k) by {
        let j = choose|j: int| 0 <= j < e2.len() && (#[trigger] e2[j]).0 == x && e2[j].1.contains(k);
        let i = choose|i: int| 0 <= i < e.len() && #[trigger] e[i] == e2[j];
        assert(e[i].0 == x && e[i].1.contains(k));
    }
}

fn position_of_repo(entries: &Vec<(String, Vec<String>)>, repo: &str) -> (res: Option<usize>)
    ensures
        match res {
            Some(i) => i < entries.len() && entries_view(entries@)[i as int].0 == repo@,
            None => !has_repo(entries_view(entries@), repo@),
        },
{
    let ghost e = entries_view(entries@);
    let mut i: usize = 0;
    while i < entries.len()
        invariant
            i <= entries.len(),
            e == entries_view(entries@),
            forall|j: int| 0 <= j < i ==> (#[trigger] e[j]).0 != repo@,
        decreases entries.len() - i,
    {
        if str_eq(entries[i].0.as_str(), repo) {
            return Some(i);
        }
        i += 1;
    }
    None
}

fn position_of_key(keys: &Vec<String>, key: &str) -> (res: Option<usize>)
    ensures
        match res {
            Some(j) => j < keys.len() && keys@[j as int]@ == key@,
            None => !strs_view(keys@).contains(key@),
        },
        res is Some <==> strs_view(keys@).contains(key@),
{
    let mut j: usize = 0;
    while j < keys.len()
        invariant
            j <= keys.len(),
            forall|t: int| 0 <= t < j ==> keys@[t]@ != key@,
        decreases keys.len() - j,
    {
        if str_eq(keys[j].as_str(), key) {
            assert(strs_view(keys@)[j as int] == key@);
            return Some(j);
        }
        j += 1;
    }
    proof {
        if strs_view(keys@).contains(key@) {
            let t = choose|t: int| 0 <= t < strs_view(keys@).len() && strs_view(keys@)[t] == key@;
            assert(keys@[t]@ == key@);
        }
    }
    None
}

impl PinnedBranches {
    pub closed spec fn wf(&self) -> bool {
        entries_wf(entries_view(self.entries@))
    }

    /// Nothing pinned.
    pub fn new() -> (res: PinnedBranches)
        ensures
            res.wf(),
            res@ == Map::<Seq<char>, Set<Seq<char>>>::empty(),
    {
        let res = PinnedBranches { entries: Vec::new() };
        assert(res@ =~= Map::<Seq<char>, Set<Seq<char>>>::empty());
        res
    }

    /// The store never keeps a working directory with nothing pinned.
    pub proof fn lemma_no_empty_entry(&self)
        requires
            self.wf(),
        ensures
            pins_map_wf(self@),
    {
        let e = entries_view(self.entries@);
        assert forall|r: Seq<char>| #[trigger] self@.dom().contains(r) implies self@[r]
            != Set::<Seq<char>>::empty() by {
            let i = choose|i: int| 0 <= i < e.len() && (#[trigger] e[i]).0 == r;
            lemma_pins_at(e, i);
            assert(e[i].1.contains(e[i].1[0]));
            assert(self@[r].contains(e[i].1[0]));
        }
    }

    /// Whether `key` is pinned in `repo`.
    pub fn is_pinned(&self, repo: &str, key: &str) -> (res: bool)
        requires
            self.wf(),
        ensures
            res == (self@.dom().contains(repo@) && self@[repo@].contains(key@)),
    {
        let ghost e = entries_view(self.entries@);
        match position_of_repo(&self.entries, repo) {
            None => {
                assert(!self@.dom().contains(repo@));
                false
            },
            Some(i) => {
                let found = position_of_key(&self.entries[i].1, key).is_some();
                proof {
                    lemma_pins_at(e, i as int);
                    assert(e[i as int].1 == strs_view(self.entries@[i as int].1@));
                    assert(self@.dom().contains(repo@));
                    assert(self@[repo@] == pins(e, repo@));
                    assert(found == e[i as int].1.contains(key@));
                }
                found
            },
        }
    }

    /// Pins `key` in `repo` when it is not pinned there, unpins it when it is.
    pub fn toggle(&mut self, repo: &str, key: &str)
        requires
            old(self).wf(),
        ensures
            final(self).wf(),
            final(self)@ == toggle_spec(old(self)@, repo@, key@),
    {
        let ghost e = entries_view(self.entries@);
        let ghost m = self@;
        match position_of_repo(&self.entries, repo) {
            None => {
                let mut keys: Vec<String> = Vec::new();
                keys.push(key.to_owned());
                assert(strs_view(keys@) =~= seq![key@]);
                let name = repo.to_owned();
                let ghost pair = (name, keys);
                self.entries.push((name, keys));
                proof {
                    let e2 = entries_view(self.entries@);
                    assert(self.entries@ =~= old(self).entries@.push(pair));
                    assert(e2 =~= e.push((repo@, seq![key@])));
                    lemma_pins_absent(e, repo@);
                    assert(entries_wf(e2)) by {
                        assert(seq![key@].no_duplicates());
                    }
                    lemma_pins_at(e2, e.len() as int);
                    assert(Set::<Seq<char>>::empty().insert(key@) != Set::<Seq<char>>::empty()) by {
                        assert(Set::<Seq<char>>::empty().insert(key@).contains(key@));
                    }
                    assert forall|x: Seq<char>| x != repo@ implies has_repo(e2, x) == has_repo(e, x)
                        && pins(e2, x) == pins(e, x) by {
                        assert forall|i: int| 0 <= i < e.len() && (#[trigger] e[i]).0 != repo@
                            implies exists|j: int| 0 <= j < e2.len() && #[trigger] e2[j] == e[i] by {
                            assert(e2[i] == e[i]);
                        }
                        assert forall|j: int| 0 <= j < e2.len() && (#[trigger] e2[j]).0 != repo@
                            implies exists|i: int| 0 <= i < e.len() && #[trigger] e[i] == e2[j] by {
                            assert(e[j] == e2[j]);
                        }
                        lemma_same_elsewhere(e, e2, repo@, x);
                    }
                    assert(Set::new(|k: Seq<char>| seq![key@].contains(k)) =~= Set::<
                        Seq<char>,
                    >::empty().insert(key@)) by {
                        assert(seq![key@][0] == key@);
                    }
                    assert(self@ =~= toggle_spec(m, repo@, key@));
                }
            },
            Some(i) => {
                let ghost cur = e[i as int].1;
                proof {
                    lemma_pins_at(e, i as int);
                }
                let mut keys = clone_strings(&self.entries[i].1);
                match position_of_key(&keys, key) {
                    Some(j) => {
                        keys.remove(j);
                        proof {
                            assert(strs_view(keys@) =~= cur.remove(j as int));
                        }
                        if keys.len() == 0 {
                            self.entries.remove(i);
                            assert(entries_view(self.entries@) =~= e.remove(i as int));
                        } else {
                            let name = self.entries[i].0.clone();
                            self.entries.set(i, (name, keys));
                            assert(entries_view(self.entries@) =~= e.update(
                                i as int,
                                (repo@, cur.remove(j as int)),
                            ));
                        }
                        proof {
                            self.lemma_after_unpin(e, m, i as int, j as int, repo@, key@);
                        }
                    },
                    None => {
                        keys.push(key.to_owned());
                        let name = self.entries[i].0.clone();
                        proof {
                            assert(strs_view(keys@) =~= cur.push(key@));
                        }
                        self.entries.set(i, (name, keys));
                        assert(entries_view(self.entries@) =~= e.update(i as int, (repo@, cur.push(key@))));
                        proof {
                            self.lemma_after_pin(e, m, i as int, repo@, key@);
                        }
                    },
                }
            },
        }
    }

    proof fn lemma_after_unpin(
        &self,
        e: PinEntries,
        m: Map<Seq<char>, Set<Seq<char>>>,
        i: int,
        j: int,
        repo: Seq<char>,
        key: Seq<char>,
    )
        requires
            entries_wf(e),
            m == pins_map(e),
            0 <= i < e.len(),
            e[i].0 == repo,
            0 <= j < e[i].1.len(),
            e[i].1[j] == key,
            e[i].1.len() == 1 ==> entries_view(self.entries@) == e.remove(i),
            e[i].1.len() != 1 ==> entries_view(self.entries@) == e.update(i, (repo, e[i].1.remove(j))),
        ensures
            self.wf(),
            self@ == toggle_spec(m, repo, key),
    {
        let e2 = entries_view(self.entries@);
        let cur = e[i].1;
        lemma_pins_at(e, i);
        let cur_set = Set::new(|k: Seq<char>| cur.contains(k));
        assert(cur_set.contains(key));
        let next = cur_set.remove(key);
        assert forall|k: Seq<char>| next.contains(k) <==> cur.remove(j).contains(k) by {
            if cur.remove(j).contains(k) {
                let t = choose|t: int| 0 <= t < cur.remove(j).len() && cur.remove(j)[t] == k;
                if t < j {
                    assert(cur[t] == k);
                } else {
                    assert(cur[t + 1] == k);
                }
                assert(cur.contains(k));
                if k == key {
                    if t < j {
                        assert(cur[t] == cur[j]);
                    } else {
                        assert(cur[t + 1] == cur[j]);
                    }
                }
            }
            if next.contains(k) {
                let t = choose|t: int| 0 <= t < cur.len() && cur[t] == k;
                assert(t != j);
                if t < j {
                    assert(cur.remove(j)[t] == k);
                } else {
                    assert(cur.remove(j)[t - 1] == k);
                }
            }
        }
        if cur.len() == 1 {
            assert(next =~= Set::<Seq<char>>::empty()) by {
                assert forall|k: Seq<char>| !next.contains(k) by {
                    if next.contains(k) {
                        assert(cur.remove(j).len() == 0);
                    }
                }
            }
            assert(entries_wf(e2)) by {
                assert forall|a: int, b: int| 0 <= a < b < e2.len() implies (#[trigger] e2[a]).0
                    != (#[trigger] e2[b]).0 by {
                    let a0 = if a < i { a } else { a + 1 };
                    let b0 = if b < i { b } else { b + 1 };
                    assert(e2[a] == e[a0] && e2[b] == e[b0]);
                }
                assert forall|a: int| 0 <= a < e2.len() implies (#[trigger] e2[a]).1.len() > 0
                    && e2[a].1.no_duplicates() by {
                    let a0 = if a < i { a } else { a + 1 };
                    assert(e2[a] == e[a0]);
                }
            }
            assert(!has_repo(e2, repo)) by {
                if has_repo(e2, repo) {
                    let a = choose|a: int| 0 <= a < e2.len() && (#[trigger] e2[a]).0 == repo;
                    let a0 = if a < i { a } else { a + 1 };
                    assert(e2[a] == e[a0]);
                    if a0 < i {
                        assert(e[a0].0 != e[i].0);
                    } else {
                        assert(e[i].0 != e[a0].0);
                    }
                }
            }
            assert forall|x: Seq<char>| x != repo implies has_repo(e2, x) == has_repo(e, x) && pins(
                e2,
                x,
            ) == pins(e, x) by {
                assert forall|a: int| 0 <= a < e.len() && (#[trigger] e[a]).0 != repo implies exists|
                    b: int,
                | 0 <= b < e2.len() && #[trigger] e2[b] == e[a] by {
                    assert(a != i);
                    let b = if a < i { a } else { a - 1 };
                    assert(e2[b] == e[a]);
                }
                assert forall|b: int| 0 <= b < e2.len() && (#[trigger] e2[b]).0 != repo implies exists|
                    a: int,
                | 0 <= a < e.len() && #[trigger] e[a] == e2[b] by {
                    let a = if b < i { b } else { b + 1 };
                    assert(e2[b] == e[a]);
                }
                lemma_same_elsewhere(e, e2, repo, x);
            }
            assert(self@ =~= toggle_spec(m, repo, key));
        } else {
            let e_new = (repo, cur.remove(j));
            assert(cur.remove(j).len() > 0);
            assert(entries_wf(e2)) by {
                assert forall|a: int, b: int| 0 <= a < b < e2.len() implies (#[trigger] e2[a]).0
                    != (#[trigger] e2[b]).0 by {
                    assert(e2[a].0 == e[a].0 && e2[b].0 == e[b].0);
                }
                assert forall|a: int| 0 <= a < e2.len() implies (#[trigger] e2[a]).1.len() > 0
                    && e2[a].1.no_duplicates() by {
                    if a == i {
                        assert forall|p: int, q: int| 0 <= p < q < cur.remove(j).len() implies
                            cur.remove(j)[p] != cur.remove(j)[q] by {
                            let p0 = if p < j { p } else { p + 1 };
                            let q0 = if q < j { q } else { q + 1 };
                            assert(cur.remove(j)[p] == cur[p0] && cur.remove(j)[q] == cur[q0]);
                        }
                    }
                }
            }
            lemma_pins_at(e2, i);
            assert(pins(e2, repo) =~= next);
            assert(next != Set::<Seq<char>>::empty()) by {
                assert(next.contains(cur.remove(j)[0]));
            }
            assert forall|x: Seq<char>| x != repo implies has_repo(e2, x) == has_repo(e, x) && pins(
                e2,
                x,
            ) == pins(e, x) by {
                assert forall|a: int| 0 <= a < e.len() && (#[trigger] e[a]).0 != repo implies exists|
                    b: int,
                | 0 <= b < e2.len() && #[trigger] e2[b] == e[a] by {
                    assert(e2[a] == e[a]);
                }
                assert forall|b: int| 0 <= b < e2.len() && (#[trigger] e2[b]).0 != repo implies exists|
                    a: int,
                | 0 <= a < e.len() && #[trigger] e[a] == e2[b] by {
                    assert(e2[b] == e[b]);
                }
                lemma_same_elsewhere(e, e2, repo, x);
            }
            assert(self@ =~= toggle_spec(m, repo, key));
        }
    }

    proof fn lemma_after_pin(
        &self,
        e: PinEntries,
        m: Map<Seq<char>, Set<Seq<char>>>,
        i: int,
        repo: Seq<char>,
        key: Seq<char>,
    )
        requires
            entries_wf(e),
            m == pins_map(e),
            0 <= i < e.len(),
            e[i].0 == repo,
            !e[i].1.contains(key),
            entries_view(self.entries@) == e.update(i, (repo, e[i].1.push(key))),
        ensures
            self.wf(),
            self@ == toggle_spec(m, repo, key),
    {
        let e2 = entries_view(self.entries@);
        let cur = e[i].1;
        lemma_pins_at(e, i);
        let cur_set = Set::new(|k: Seq<char>| cur.contains(k));
        let next = cur_set.insert(key);
        assert(entries_wf(e2)) by {
            assert forall|a: int, b: int| 0 <= a < b < e2.len() implies (#[trigger] e2[a]).0
                != (#[trigger] e2[b]).0 by {
                assert(e2[a].0 == e[a].0 && e2[b].0 == e[b].0);
            }
            assert forall|a: int| 0 <= a < e2.len() implies (#[trigger] e2[a]).1.len() > 0
                && e2[a].1.no_duplicates() by {
                if a == i {
                    assert forall|p: int, q: int| 0 <= p < q < cur.push(key).len() implies
                        cur.push(key)[p] != cur.push(key)[q] by {
                        if q == cur.len() {
                            assert(cur.push(key)[p] == cur[p]);
                        }
                    }
                }
            }
        }
        lemma_pins_at(e2, i);
        assert forall|k: Seq<char>| pins(e2, repo).contains(k) <==> next.contains(k) by {
            if cur.push(key).contains(k) {
                let t = choose|t: int| 0 <= t < cur.push(key).len() && cur.push(key)[t] == k;
                if t < cur.len() {
                    assert(cur[t] == k);
                }
            }
            if cur.contains(k) {
                let t = choose|t: int| 0 <= t < cur.len() && cur[t] == k;
                assert(cur.push(key)[t] == k);
            }
            if k == key {
                assert(cur.push(key)[cur.len() as int] == key);
            }
        }
        assert(pins(e2, repo) =~= next);
        assert(next != Set::<Seq<char>>::empty()) by {
            assert(next.contains(key));
        }
        assert forall|x: Seq<char>| x != repo implies has_repo(e2, x) == has_repo(e, x) && pins(
            e2,
            x,
        ) == pins(e, x) by {
            assert forall|a: int| 0 <= a < e.len() && (#[trigger] e[a]).0 != repo implies exists|
                b: int,
            | 0 <= b < e2.len() && #[trigger] e2[b] == e[a] by {
                assert(e2[a] == e[a]);
            }
            assert forall|b: int| 0 <= b < e2.len() && (#[trigger] e2[b]).0 != repo implies exists|
                a: int,
            | 0 <= a < e.len() && #[trigger] e[a] == e2[b] by {
                assert(e2[b] == e[b]);
            }
            lemma_same_elsewhere(e, e2, repo, x);
        }
        assert(self@ =~= toggle_spec(m, repo, key));
    }
}

/// Toggling the same key twice gives back the pins as they were, as long as
/// no working directory was kept with nothing pinned (the store never keeps
/// one, see `PinnedBranches::lemma_no_empty_entry`).
pub proof fn law_toggle_twice_restores(
    m: Map<Seq<char>, Set<Seq<char>>>,
    repo: Seq<char>,
    key: Seq<char>,
)
    requires
        pins_map_wf(m),
    ensures
        toggle_spec(toggle_spec(m, repo, key), repo, key) == m,
{
    let once = toggle_spec(m, repo, key);
    let twice = toggle_spec(once, repo, key);
    let empty = Set::<Seq<char>>::empty();
    if m.dom().contains(repo) {
        let cur = m[repo];
        assert(cur != empty);
        if cur.contains(key) {
            let next = cur.remove(key);
            if next == empty {
                assert(cur =~= empty.insert(key)) by {
                    assert forall|k: Seq<char>| cur.contains(k) implies k == key by {
                        if k != key {
                            assert(next.contains(k));
                        }
                    }
                }
                assert(!once.dom().contains(repo));
                assert(twice =~= m);
            } else {
                assert(once[repo] == next);
                assert(next.insert(key) =~= cur);
                assert(twice =~= m);
            }
        } else {
            let next = cur.insert(key);
            assert(next.contains(key));
            assert(once[repo] == next);
            assert(next.remove(key) =~= cur);
            assert(twice =~= m);
        }
    } else {
        let next = empty.insert(key);
        assert(next.contains(key));
        assert(once[repo] == next);
        assert(next.remove(key) =~= empty);
        assert(twice =~= m);
    }
}

/// Toggling never leaves a working directory with nothing pinned, and leaves
/// every other working directory's pins as they were.
pub proof fn law_toggle_touches_one_repo(
    m: Map<Seq<char>, Set<Seq<char>>>,
    repo: Seq<char>,
    key: Seq<char>,
    other: Seq<char>,
)
    requires
        pins_map_wf(m),
        other != repo,
    ensures
        pins_map_wf(toggle_spec(m, repo, key)),
        toggle_spec(m, repo, key).dom().contains(other) == m.dom().contains(other),
        m.dom().contains(other) ==> toggle_spec(m, repo, key)[other] == m[other],
{
}

impl PinnedBranches {
    /// The pins to save: each working directory with its pinned keys.
    pub fn saved(&self) -> (res: Vec<(String, Vec<String>)>)
        requires
            self.wf(),
        ensures
            entries_wf(entries_view(res@)),
            pins_map(entries_view(res@)) == self@,
    {
        let mut out: Vec<(String, Vec<String>)> = Vec::new();
        let mut i: usize = 0;
        while i < self.entries.len()
            invariant
                i <= self.entries.len(),
                entries_view(out@) == entries_view(self.entries@).take(i as int),
            decreases self.entries.len() - i,
        {
            let name = self.entries[i].0.clone();
            let keys = clone_strings(&self.entries[i].1);
            let ghost before = out@;
            out.push((name, keys));
            assert(entries_view(out@) =~= entries_view(self.entries@).take(i + 1)) by {
                assert(out@ =~= before.push((name, keys)));
                assert(entries_view(out@) =~= entries_view(before).push((name@, strs_view(keys@))));
                assert(entries_view(self.entries@)[i as int] == (name@, strs_view(keys@)));
            }
            i += 1;
        }
        assert(entries_view(self.entries@).take(self.entries.len() as int) =~= entries_view(
            self.entries@,
        ));
        out
    }

    /// Toggles `key` for the working directory of repository `repo_id`; does
    /// nothing when that repository is not open.
    pub fn toggle_pinned_branch(&mut self, state: &AppState, repo_id: RepoId, key: &str)
        requires
            old(self).wf(),
        ensures
            final(self).wf(),
            final(self)@ == match crate::model::find_repo_view(state@.repos, repo_id) {
                Some(r) => toggle_spec(old(self)@, r.workdir, key@),
                None => old(self)@,
            },
    {
        match find_repo_index(&state.repos, repo_id) {
            Some(i) => {
                let workdir = state.repos[i].workdir.as_str();
                self.toggle(workdir, key);
            },
            None => {},
        }
    }
}

} // verus!
