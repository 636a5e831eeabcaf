//! The commits a history walk over every branch starts from: HEAD, then
//! every reference that is not a tag, then the stash entries, each commit
//! once.
use vstd::prelude::*;
use crate::model::{opt_str_view, strs_view};
use crate::pickers::push_strings;
use crate::reflog_read::contains_id;

verus! {

/// A reference of the repository: whether it is a tag, and the commit it
/// points at (none when it does not lead to a commit).
#[derive(Clone, Debug, PartialEq, Eq)]
pub struct RefTip {
    pub is_tag: bool,
    pub commit_id: Option<String>,
}

/// The commits of the references that are not tags, in order.
pub open spec fn ref_commits(refs: Seq<RefTip>) -> Seq<Seq<char>>
    decreases refs.len(),
{
    if refs.len() == 0 {
        Seq::empty()
    } else {
        let prev = ref_commits(refs.drop_last());
        let r = refs.last();
        match r.commit_id {
            Some(id) => if r.is_tag {
                prev
            } else {
                prev.push(id@)
            },
            None => prev,
        }
    }
}

/// Every tip in the order it is offered, repeats included.
pub open spec fn tip_candidates(
    head: Option<Seq<char>>,
    refs: Seq<RefTip>,
    stash: Seq<Seq<char>>,
) -> Seq<Seq<char>> {
    (match head {
        Some(h) => seq![h],
        None => Seq::empty(),
    }) + ref_commits(refs) + stash
}

/// `s` with every element after its first occurrence dropped.
pub open spec fn first_occurrences(s: Seq<Seq<char>>) -> Seq<Seq<char>>
    decreases s.len(),
{
    if s.len() == 0 {
        Seq::empty()
    } else {
        let prev = first_occurrences(s.drop_last());
        if prev.contains(s.last()) {
            prev
        } else {
            prev.push(s.last())
        }
    }
}

/// The walk tips hold each offered commit exactly once, and HEAD, when
/// there is one, comes first.
pub proof fn law_tips_are_the_offered_commits_once(s: Seq<Seq<char>>)
    ensures
        first_occurrences(s).no_duplicates(),
        forall|x: Seq<char>| first_occurrences(s).contains(x) <==> s.contains(x),
        s.len() > 0 ==> first_occurrences(s).len() > 0 && first_occurrences(s)[0] == s[0],
    decreases s.len(),
{
    if s.len() > 0 {
        let init = s.drop_last();
        law_tips_are_the_offered_commits_once(init);
        let prev = first_occurrences(init);
        assert forall|x: Seq<char>| first_occurrences(s).contains(x) <==> s.contains(x) by {
            if s.contains(x) {
                let k = choose|k: int| 0 <= k < s.len() && s[k] == x;
                if k < s.len() - 1 {
                    assert(init[k] == x);
                    assert(init.contains(x));
                }
            }
            if init.contains(x) {
                let k = choose|k: int| 0 <= k < init.len() && init[k] == x;
                assert(s[k] == x);
            }
            if !prev.contains(s.last()) && x == s.last() {
                assert(prev.push(s.last())[prev.len() as int] == x);
            }
            if !prev.contains(s.last()) && prev.push(s.last()).contains(x) && x != s.last() {
                let k = choose|k: int| 0 <= k < prev.push(s.last()).len() && prev.push(s.last())[k] == x;
                assert(prev[k] == x);
            }
            if !prev.contains(s.last()) && prev.contains(x) {
                let k = choose|k: int| 0 <= k < prev.len() && prev[k] == x;
                assert(prev.push(s.last())[k] == x);
            }
        }
        if init.len() == 0 {
            assert(prev =~= Seq::<Seq<char>>::empty());
            assert(!prev.contains(s.last()));
            assert(first_occurrences(s) =~= seq![s[0]]);
        } else {
            assert(init[0] == s[0]);
        }
    }
}

fn ref_commit_ids(refs: &Vec<RefTip>) -> (res: Vec<String>)
    ensures
        strs_view(res@) == ref_commits(refs@),
{
    let mut out: Vec<String> = Vec::new();
    let mut i: usize = 0;
    while i < refs.len()
        invariant
            i <= refs.len(),
            strs_view(out@) == ref_commits(refs@.take(i as int)),
        decreases refs.len() - i,
    {
        assert(refs@.take(i + 1).drop_last() =~= refs@.take(i as int));
        assert(refs@.take(i + 1).last() == refs@[i as int]);
        let r = &refs[i];
        if !r.is_tag {
            if let Some(id) = &r.commit_id {
                let ghost before = out@;
                out.push(id.clone());
                assert(strs_view(out@) =~= strs_view(before).push(id@));
            }
        }
        i += 1;
    }
    assert(refs@.take(refs.len() as int) =~= refs@);
    out
}

/// The tips to walk every branch from: HEAD, then the commits of the
/// references that are not tags, then the stash commits; each commit once,
/// where it first appears.
pub fn all_branches_walk_tips(
    head: Option<String>,
    refs: &Vec<RefTip>,
    stash_tips: &Vec<String>,
) -> (res: Vec<String>)
    ensures
        strs_view(res@) == first_occurrences(
            tip_candidates(
                opt_str_view(head),
                refs@,
                strs_view(stash_tips@),
            ),
        ),
{
    let ghost hv = opt_str_view(head);
    let mut candidates: Vec<String> = Vec::new();
    match head {
        Some(h) => {
            candidates.push(h);
        },
        None => {},
    }
    let ghost head_part = strs_view(candidates@);
    assert(head_part =~= match hv {
        Some(h) => seq![h],
        None => Seq::<Seq<char>>::empty(),
    });
    let from_refs = ref_commit_ids(refs);
    push_strings(&mut candidates, &from_refs);
    push_strings(&mut candidates, stash_tips);
    let ghost cands = strs_view(candidates@);
    assert(cands =~= tip_candidates(hv, refs@, strs_view(stash_tips@)));
    let mut tips: Vec<String> = Vec::new();
    let mut i: usize = 0;
    while i < candidates.len()
        invariant
            i <= candidates.len(),
            cands == strs_view(candidates@),
            strs_view(tips@) == first_occurrences(cands.take(i as int)),
        decreases candidates.len() - i,
    {
        let c = &candidates[i];
        assert(cands.take(i + 1).drop_last() =~= cands.take(i as int));
        assert(cands.take(i + 1).last() == c@);
        if !contains_id(&tips, c.as_str()) {
            let ghost before = tips@;
            tips.push(c.clone());
            assert(strs_view(tips@) =~= strs_view(before).push(c@));
        } else {
            assert(tips@.map_values(|s: String| s@) == strs_view(tips@));
        }
        i += 1;
    }
    assert(cands.take(candidates.len() as int) =~= cands);
    tips
}

} // verus!
