//! What the picker popovers list for a query, and what pressing Enter on the
//! highlighted row (or on the typed text) does.
use vstd::prelude::*;
use crate::context_menu::join_path;
use crate::find::lemma_map_push;
use crate::message::{Msg, MsgView};
use crate::model::{opt_str_view, strs_view, DiffTarget, DiffTargetView, RepoId, RepoState};
use crate::search::{filter_by_query, filtered_payloads, match_branches, matched_branches, query_matches};
use crate::text::{concat, str_eq, utf8_len};

verus! {

/// A branch the picker keeps: every branch, except the current one when the
/// picker hides it (deleting, or rebasing onto, the current branch makes no
/// sense).
pub open spec fn kept_branch(hide_current: bool, head: Option<Seq<char>>) -> spec_fn(Seq<char>) -> bool {
    |b: Seq<char>| !(hide_current && head == Some(b))
}

/// The names the branch picker searches, in order: `HEAD` first and the tags
/// last when it also offers other refs.
pub open spec fn branch_picker_names(
    branches: Seq<Seq<char>>,
    head: Option<Seq<char>>,
    tags: Option<Seq<Seq<char>>>,
    hide_current: bool,
    with_refs: bool,
) -> Seq<Seq<char>> {
    let kept = branches.filter(kept_branch(hide_current, head));
    if with_refs {
        seq!["HEAD"@] + kept + match tags {
            Some(t) => t,
            None => Seq::empty(),
        }
    } else {
        kept
    }
}

fn lemma_utf8_bounded(s: &str)
    ensures
        utf8_len(s@) <= usize::MAX,
{
    let bytes = s.as_bytes();
    let _n = bytes.len();
}

pub(crate) fn push_strings(out: &mut Vec<String>, more: &Vec<String>)
    ensures
        strs_view(final(out)@) == strs_view(old(out)@) + strs_view(more@),
{
    let ghost start = strs_view(out@);
    let mut i: usize = 0;
    while i < more.len()
        invariant
            i <= more.len(),
            strs_view(out@) == start + strs_view(more@).take(i as int),
        decreases more.len() - i,
    {
        let s = more[i].clone();
        let ghost before = out@;
        out.push(s);
        proof {
            lemma_map_push(before, s, |x: String| x@);
            assert(strs_view(more@).take(i + 1) =~= strs_view(more@).take(i as int).push(s@));
            assert(start + strs_view(more@).take(i + 1) =~= (start + strs_view(more@).take(i as int)).push(s@));
        }
        i += 1;
    }
    assert(strs_view(more@).take(more.len() as int) =~= strs_view(more@));
}

/// The branch picker's rows for `query`: the searchable names of the
/// repository (`None` while its branches are not loaded), narrowed and
/// ordered as `match_branches` does. `tags` are the loaded tag names, if any.
pub fn branch_picker_items(
    repo: &RepoState,
    tags: &Option<Vec<String>>,
    hide_current: bool,
    with_refs: bool,
    query: &str,
) -> (res: Option<Vec<String>>)
    ensures
        match res {
            None => repo@.branches is None,
            Some(items) => repo@.branches matches Some(bs) && matched_branches(
                branch_picker_names(
                    bs.map_values(|b: crate::model::BranchView| b.name),
                    repo@.head_branch,
                    match tags {
                        Some(t) => Some(strs_view(t@)),
                        None => None,
                    },
                    hide_current,
                    with_refs,
                ),
                query@,
                strs_view(items@),
            ),
        },
{
    let branches = match &repo.branches {
        Some(b) => b,
        None => return None,
    };
    let ghost bnames = repo@.branches.unwrap().map_values(|b: crate::model::BranchView| b.name);
    let ghost head = repo@.head_branch;
    let ghost pred = kept_branch(hide_current, head);
    let mut names: Vec<String> = Vec::new();
    if with_refs {
        names.push("HEAD".to_owned());
    }
    let ghost prefix = strs_view(names@);
    let mut i: usize = 0;
    while i < branches.len()
        invariant
            i <= branches.len(),
            bnames == branches@.map_values(|b: crate::model::Branch| b@).map_values(
                |b: crate::model::BranchView| b.name,
            ),
            bnames.len() == branches.len(),
            head == opt_str_view(repo.head_branch),
            pred == kept_branch(hide_current, head),
            strs_view(names@) == prefix + bnames.take(i as int).filter(pred),
        decreases branches.len() - i,
    {
        let name = &branches[i].name;
        assert(bnames[i as int] == name@);
        let ghost done = bnames.take(i as int);
        proof {
            assert(bnames.take(i + 1) =~= done.push(name@));
            done.lemma_filter_push(name@, pred);
        }
        let hidden = hide_current && match &repo.head_branch {
            Some(h) => str_eq(h.as_str(), name.as_str()),
            None => false,
        };
        if !hidden {
            let s = name.clone();
            let ghost before = names@;
            names.push(s);
            proof {
                lemma_map_push(before, s, |x: String| x@);
                assert(prefix + done.filter(pred).push(name@) =~= (prefix + done.filter(pred)).push(
                    name@,
                ));
            }
        }
        i += 1;
    }
    assert(bnames.take(branches.len() as int) =~= bnames);
    if with_refs {
        if let Some(t) = tags {
            push_strings(&mut names, t);
        }
    }
    proof {
        let kept = bnames.filter(pred);
        let tv = match tags {
            Some(t) => strs_view(t@),
            None => Seq::<Seq<char>>::empty(),
        };
        if with_refs {
            assert(prefix =~= seq!["HEAD"@]);
            assert(strs_view(names@) =~= seq!["HEAD"@] + kept + tv);
        } else {
            assert(prefix =~= Seq::<Seq<char>>::empty());
            assert(strs_view(names@) =~= kept);
        }
    }
    let mut k: usize = 0;
    while k < names.len()
        invariant
            k <= names.len(),
            forall|j: int| 0 <= j < k ==> utf8_len(#[trigger] names@[j]@) <= usize::MAX,
        decreases names.len() - k,
    {
        lemma_utf8_bounded(names[k].as_str());
        k += 1;
    }
    let items = match_branches(&names, query);
    proof {
        assert(names@.map_values(|b: String| b@) =~= strs_view(names@));
        assert(items@.map_values(|b: String| b@) =~= strs_view(items@));
    }
    Some(items)
}

/// The ref Enter selects in the branch picker: the highlighted row, or, when
/// the picker also takes a typed ref, the typed text if no row is
/// highlighted; nothing when that is empty.
pub open spec fn branch_picker_choice_spec(
    offers_refs: bool,
    payload: Option<Seq<char>>,
    query: Seq<char>,
) -> Option<Seq<char>> {
    if offers_refs {
        let name = match payload {
            Some(p) => p,
            None => query,
        };
        if name.len() == 0 {
            None
        } else {
            Some(name)
        }
    } else {
        payload
    }
}

pub fn branch_picker_choice(offers_refs: bool, payload: Option<String>, query: String) -> (res:
    Option<String>)
    ensures
        opt_str_view(res) == branch_picker_choice_spec(offers_refs, opt_str_view(payload), query@),
{
    if offers_refs {
        let name = match payload {
            Some(p) => p,
            None => query,
        };
        if name.as_str().is_empty() {
            None
        } else {
            Some(name)
        }
    } else {
        payload
    }
}

/// What the stash picker was opened for.
#[derive(Clone, Copy, Debug, PartialEq, Eq, Structural)]
pub enum StashPickerPurpose {
    Pop,
    Apply,
    Drop,
}

pub open spec fn stash_picker_enter_spec(repo_id: RepoId, purpose: StashPickerPurpose, index: usize) -> Seq<
    MsgView,
> {
    seq![
        match purpose {
            StashPickerPurpose::Pop => MsgView::PopStash { repo_id, index },
            StashPickerPurpose::Apply => MsgView::ApplyStash { repo_id, index },
            StashPickerPurpose::Drop => MsgView::DropStash { repo_id, index },
        },
        MsgView::LoadStashes { repo_id },
    ]
}

/// Picking stash `index`: pop, apply or drop it, then reload the stash list
/// (the picker then closes).
pub fn stash_picker_enter(repo_id: RepoId, purpose: StashPickerPurpose, index: usize) -> (res: Vec<Msg>)
    ensures
        res@.map_values(|m: Msg| m@) == stash_picker_enter_spec(repo_id, purpose, index),
{
    let first = match purpose {
        StashPickerPurpose::Pop => Msg::PopStash { repo_id, index },
        StashPickerPurpose::Apply => Msg::ApplyStash { repo_id, index },
        StashPickerPurpose::Drop => Msg::DropStash { repo_id, index },
    };
    let res = vec![first, Msg::LoadStashes { repo_id }];
    assert(res@.map_values(|m: Msg| m@) =~= stash_picker_enter_spec(repo_id, purpose, index));
    res
}

pub open spec fn file_history_enter_spec(repo_id: RepoId, path: Seq<char>, commit_id: Seq<char>) -> Seq<
    MsgView,
> {
    seq![
        MsgView::SelectCommit { repo_id, commit_id },
        MsgView::SelectDiff {
            repo_id,
            target: DiffTargetView::Commit { commit_id, path: Some(path) },
        },
    ]
}

/// Picking a commit in a file's history: select the commit and show that
/// file's diff in it (the picker then closes).
pub fn file_history_enter(repo_id: RepoId, path: String, commit_id: String) -> (res: Vec<Msg>)
    ensures
        res@.map_values(|m: Msg| m@) == file_history_enter_spec(repo_id, path@, commit_id@),
{
    let res = vec![
        Msg::SelectCommit { repo_id, commit_id: commit_id.clone() },
        Msg::SelectDiff { repo_id, target: DiffTarget::Commit { commit_id, path: Some(path) } },
    ];
    assert(res@.map_values(|m: Msg| m@) =~= file_history_enter_spec(repo_id, path@, commit_id@));
    res
}

/// A linked worktree: its path and checked-out branch, if any.
#[derive(Clone, Debug, PartialEq, Eq)]
pub struct WorktreeEntry {
    pub path: String,
    pub branch: Option<String>,
}

/// The text a worktree row is searched by: its branch, then its path.
pub open spec fn worktree_match_text(w: WorktreeEntry) -> Seq<char> {
    match w.branch {
        Some(b) => b@ + w.path@,
        None => w.path@,
    }
}

/// The `(path, text)` pairs of the worktrees other than the repository's
/// own working directory, in order.
pub open spec fn worktree_items(worktrees: Seq<WorktreeEntry>, workdir: Seq<char>) -> Seq<
    (Seq<char>, Seq<char>),
> {
    worktrees.filter(|w: WorktreeEntry| w.path@ != workdir).map_values(
        |w: WorktreeEntry| (w.path@, worktree_match_text(w)),
    )
}

/// The paths of the `(path, text)` items whose text matches `query`, in
/// order (the match is `filter_by_query`'s).
pub open spec fn matching_paths(items: Seq<(Seq<char>, Seq<char>)>, query: Seq<char>) -> Seq<Seq<char>> {
    items.filter(|p: (Seq<char>, Seq<char>)| query_matches(p.1, query)).map_values(
        |p: (Seq<char>, Seq<char>)| p.0,
    )
}

pub open spec fn pairs_view(pairs: Seq<(String, String)>) -> Seq<(Seq<char>, Seq<char>)> {
    pairs.map_values(|p: (String, String)| (p.0@, p.1@))
}

proof fn lemma_filtered_views(pairs: Seq<(String, String)>, query: Seq<char>)
    ensures
        filtered_payloads(pairs, query).map_values(|s: String| s@) == matching_paths(
            pairs_view(pairs),
            query,
        ),
    decreases pairs.len(),
{
    let pred = |p: (String, String)| query_matches(p.1@, query);
    let vpred = |p: (Seq<char>, Seq<char>)| query_matches(p.1, query);
    reveal(Seq::filter);
    if pairs.len() == 0 {
        assert(pairs.filter(pred) =~= Seq::<(String, String)>::empty());
        assert(pairs_view(pairs).filter(vpred) =~= Seq::<(Seq<char>, Seq<char>)>::empty());
        assert(filtered_payloads(pairs, query).map_values(|s: String| s@) =~= matching_paths(
            pairs_view(pairs),
            query,
        ));
    } else {
        let init = pairs.drop_last();
        let last = pairs.last();
        lemma_filtered_views(init, query);
        assert(pairs_view(pairs) =~= pairs_view(init).push((last.0@, last.1@)));
        assert(pairs_view(pairs).drop_last() =~= pairs_view(init));
        if pred(last) {
            assert(filtered_payloads(pairs, query) =~= filtered_payloads(init, query).push(last.0));
            assert(filtered_payloads(pairs, query).map_values(|s: String| s@) =~= filtered_payloads(
                init,
                query,
            ).map_values(|s: String| s@).push(last.0@));
            assert(matching_paths(pairs_view(pairs), query) =~= matching_paths(
                pairs_view(init),
                query,
            ).push(last.0@));
        } else {
            assert(filtered_payloads(pairs, query) =~= filtered_payloads(init, query));
            assert(matching_paths(pairs_view(pairs), query) =~= matching_paths(
                pairs_view(init),
                query,
            ));
        }
    }
}

fn worktree_pairs(worktrees: &Vec<WorktreeEntry>, workdir: &str) -> (res: Vec<(String, String)>)
    ensures
        pairs_view(res@) == worktree_items(worktrees@, workdir@),
{
    let ghost pred = |w: WorktreeEntry| w.path@ != workdir@;
    let ghost f = |w: WorktreeEntry| (w.path@, worktree_match_text(w));
    let mut out: Vec<(String, String)> = Vec::new();
    let mut i: usize = 0;
    while i < worktrees.len()
        invariant
            i <= worktrees.len(),
            pred == (|w: WorktreeEntry| w.path@ != workdir@),
            f == (|w: WorktreeEntry| (w.path@, worktree_match_text(w))),
            pairs_view(out@) == worktrees@.take(i as int).filter(pred).map_values(f),
        decreases worktrees.len() - i,
    {
        let w = &worktrees[i];
        let ghost done = worktrees@.take(i as int);
        proof {
            assert(worktrees@.take(i + 1) =~= done.push(*w));
            done.lemma_filter_push(*w, pred);
        }
        if !str_eq(w.path.as_str(), workdir) {
            let text = match &w.branch {
                Some(b) => concat(b.as_str(), w.path.as_str()),
                None => w.path.clone(),
            };
            let pair = (w.path.clone(), text);
            let ghost before = out@;
            out.push(pair);
            proof {
                lemma_map_push(before, pair, |p: (String, String)| (p.0@, p.1@));
                lemma_map_push(done.filter(pred), *w, f);
            }
        }
        i += 1;
    }
    assert(worktrees@.take(worktrees.len() as int) =~= worktrees@);
    out
}

/// The worktree picker's rows for `query`: the paths of the worktrees other
/// than the repository's own working directory whose text matches, in order.
pub fn worktree_picker_items(worktrees: &Vec<WorktreeEntry>, workdir: &str, query: &str) -> (res:
    Vec<String>)
    ensures
        strs_view(res@) == matching_paths(worktree_items(worktrees@, workdir@), query@),
{
    let pairs = worktree_pairs(worktrees, workdir);
    let ghost pv = pairs@;
    let res = filter_by_query(pairs, query);
    proof {
        lemma_filtered_views(pv, query@);
        assert(strs_view(res@) =~= res@.map_values(|s: String| s@));
    }
    res
}

fn path_pairs(paths: &Vec<String>) -> (res: Vec<(String, String)>)
    ensures
        pairs_view(res@) == strs_view(paths@).map_values(|p: Seq<char>| (p, p)),
{
    let mut out: Vec<(String, String)> = Vec::new();
    let mut i: usize = 0;
    while i < paths.len()
        invariant
            i <= paths.len(),
            pairs_view(out@) == strs_view(paths@).take(i as int).map_values(|p: Seq<char>| (p, p)),
        decreases paths.len() - i,
    {
        let pair = (paths[i].clone(), paths[i].clone());
        let ghost before = out@;
        out.push(pair);
        proof {
            lemma_map_push(before, pair, |p: (String, String)| (p.0@, p.1@));
            assert(strs_view(paths@).take(i + 1) =~= strs_view(paths@).take(i as int).push(paths@[i as int]@));
            lemma_map_push(strs_view(paths@).take(i as int), paths@[i as int]@, |p: Seq<char>| (p, p));
        }
        i += 1;
    }
    assert(strs_view(paths@).take(paths.len() as int) =~= strs_view(paths@));
    out
}

/// The submodule picker's rows for `query`: the submodule paths that match,
/// in order.
pub fn submodule_picker_items(paths: &Vec<String>, query: &str) -> (res: Vec<String>)
    ensures
        strs_view(res@) == matching_paths(strs_view(paths@).map_values(|p: Seq<char>| (p, p)), query@),
{
    let pairs = path_pairs(paths);
    let ghost pv = pairs@;
    let res = filter_by_query(pairs, query);
    proof {
        lemma_filtered_views(pv, query@);
        assert(strs_view(res@) =~= res@.map_values(|s: String| s@));
    }
    res
}

/// What picking a worktree or submodule row does.
#[derive(Clone, Debug, PartialEq, Eq)]
pub enum PickOutcome {
    /// The remove picker asks for confirmation before removing `path`.
    ConfirmRemove { path: String },
    /// The open picker dispatches this message and closes.
    Dispatch(Msg),
}

pub enum PickOutcomeView {
    ConfirmRemove { path: Seq<char> },
    Dispatch(MsgView),
}

impl View for PickOutcome {
    type V = PickOutcomeView;

    open spec fn view(&self) -> PickOutcomeView {
        match self {
            PickOutcome::ConfirmRemove { path } => PickOutcomeView::ConfirmRemove { path: path@ },
            PickOutcome::Dispatch(m) => PickOutcomeView::Dispatch(m@),
        }
    }
}

/// Picking worktree `path`: confirm its removal, or open it as a repository.
pub fn worktree_picker_enter(is_remove: bool, path: String) -> (res: PickOutcome)
    ensures
        res@ == (if is_remove {
            PickOutcomeView::ConfirmRemove { path: path@ }
        } else {
            PickOutcomeView::Dispatch(MsgView::OpenRepo(path@))
        }),
{
    if is_remove {
        PickOutcome::ConfirmRemove { path }
    } else {
        PickOutcome::Dispatch(Msg::OpenRepo(path))
    }
}

/// `base` joined with `rel` the way a path is pushed onto another: an
/// absolute `rel` replaces `base`.
pub open spec fn path_join(base: Seq<char>, rel: Seq<char>) -> Seq<char> {
    if rel.len() > 0 && rel[0] == '/' {
        rel
    } else {
        join_path(base, rel)
    }
}

/// Picking submodule `rel_path` of the repository at `workdir`: confirm its
/// removal, or open the submodule's own directory as a repository.
pub fn submodule_picker_enter(is_remove: bool, workdir: &str, rel_path: String) -> (res: PickOutcome)
    ensures
        res@ == (if is_remove {
            PickOutcomeView::ConfirmRemove { path: rel_path@ }
        } else {
            PickOutcomeView::Dispatch(MsgView::OpenRepo(path_join(workdir@, rel_path@)))
        }),
{
    if is_remove {
        return PickOutcome::ConfirmRemove { path: rel_path };
    }
    let rel = crate::text::chars_of(rel_path.as_str());
    if rel.len() > 0 && rel[0] == '/' {
        return PickOutcome::Dispatch(Msg::OpenRepo(rel_path));
    }
    let base = crate::text::chars_of(workdir);
    let n = base.len();
    let joined = if n > 0 && base[n - 1] != '/' {
        let with_sep = concat(workdir, "/");
        concat(with_sep.as_str(), rel_path.as_str())
    } else {
        concat(workdir, rel_path.as_str())
    };
    proof {
        if n > 0 && base@[n - 1] != '/' {
            assert(joined@ =~= workdir@ + "/"@ + rel_path@);
        }
    }
    PickOutcome::Dispatch(Msg::OpenRepo(joined))
}

} // verus!
