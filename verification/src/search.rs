//! The search boxes of the picker popovers: which picker is open, and how a
//! query narrows and orders the list.
use vstd::prelude::*;
use crate::find::lemma_map_push;
use crate::model::{Commit, RepoId};
use crate::popover::{
    PopoverHost, PopoverKind, PopoverKindView, RepoPopoverKind, SubmodulePopoverKind,
    WorktreePopoverKind,
};
use crate::sorting::{keys_view, is_stable_order, stable_order, SortKey, SortKeyView};
use crate::text::{
    utf8_len, utf8_len_of, lemma_utf8_len_take, lemma_utf8_len_ascii_lower,
    ascii_lower_chars, ascii_lower_seq, byte_prefix_or_all, byte_prefix_or_all_str, chars_of,
    concat, contains_seq, find_seq, first_occurrence, string_of, sub_chars,
};

verus! {

/// The branch picker also offers other refs (HEAD, tags) and accepts a typed
/// ref: when it serves "create branch from ref" or "add worktree".
pub open spec fn offers_refs(popover: Option<PopoverKindView>) -> bool {
    ||| popover matches Some(PopoverKindView::CreateBranchFromRefPrompt { .. })
    ||| popover matches Some(
        PopoverKindView::Repo {
            kind: RepoPopoverKind::Worktree(WorktreePopoverKind::AddPrompt),
            ..
        },
    )
}

pub fn branch_picker_offers_refs(this: &PopoverHost) -> (res: bool)
    ensures
        res == offers_refs(this@.popover),
{
    match &this.popover {
        Some(PopoverKind::CreateBranchFromRefPrompt { .. }) => true,
        Some(
            PopoverKind::Repo {
                kind: RepoPopoverKind::Worktree(WorktreePopoverKind::AddPrompt),
                ..
            },
        ) => true,
        _ => false,
    }
}

/// The repository of the open worktree picker, and whether it removes
/// (rather than opens) a worktree.
pub open spec fn worktree_picker(popover: Option<PopoverKindView>) -> Option<(RepoId, bool)> {
    match popover {
        Some(
            PopoverKindView::Repo { repo_id, kind: RepoPopoverKind::Worktree(kind) },
        ) => match kind {
            WorktreePopoverKind::OpenPicker => Some((repo_id, false)),
            WorktreePopoverKind::RemovePicker => Some((repo_id, true)),
            _ => None,
        },
        _ => None,
    }
}

pub fn worktree_picker_state(this: &PopoverHost) -> (res: Option<(RepoId, bool)>)
    ensures
        res == worktree_picker(this@.popover),
{
    match &this.popover {
        Some(PopoverKind::Repo { repo_id, kind: RepoPopoverKind::Worktree(kind) }) => match kind {
            WorktreePopoverKind::OpenPicker => Some((*repo_id, false)),
            WorktreePopoverKind::RemovePicker => Some((*repo_id, true)),
            _ => None,
        },
        _ => None,
    }
}

/// The repository of the open submodule picker, and whether it removes
/// (rather than opens) a submodule.
pub open spec fn submodule_picker(popover: Option<PopoverKindView>) -> Option<(RepoId, bool)> {
    match popover {
        Some(
            PopoverKindView::Repo { repo_id, kind: RepoPopoverKind::Submodule(kind) },
        ) => match kind {
            SubmodulePopoverKind::OpenPicker => Some((repo_id, false)),
            SubmodulePopoverKind::RemovePicker => Some((repo_id, true)),
            _ => None,
        },
        _ => None,
    }
}

pub fn submodule_picker_state(this: &PopoverHost) -> (res: Option<(RepoId, bool)>)
    ensures
        res == submodule_picker(this@.popover),
{
    match &this.popover {
        Some(PopoverKind::Repo { repo_id, kind: RepoPopoverKind::Submodule(kind) }) => match kind {
            SubmodulePopoverKind::OpenPicker => Some((*repo_id, false)),
            SubmodulePopoverKind::RemovePicker => Some((*repo_id, true)),
            _ => None,
        },
        _ => None,
    }
}

/// The first eight bytes of a commit id when they end on a character
/// boundary, else the whole id.
pub open spec fn short_id(id: Seq<char>) -> Seq<char> {
    byte_prefix_or_all(id, 8)
}

/// The short form of a commit id.
pub fn short_id_string(id: &str) -> (res: String)
    ensures
        res@ == short_id(id@),
{
    byte_prefix_or_all_str(id, 8).to_owned()
}

/// The text the file-history search matches a commit by: its short id
/// followed by its summary.
pub fn file_history_match_text(commit: &Commit) -> (res: String)
    ensures
        res@ == short_id(commit.id@) + commit.summary@,
{
    let short = byte_prefix_or_all_str(commit.id.as_str(), 8);
    concat(short, commit.summary.as_str())
}

/// An ASCII-case-insensitive substring match; the empty query matches
/// every text.
pub open spec fn query_matches(text: Seq<char>, query: Seq<char>) -> bool {
    ascii_lower_seq(query).len() == 0 || contains_seq(ascii_lower_seq(text), ascii_lower_seq(query))
}

/// The payloads of the items whose text matches the query, in input order.
pub open spec fn filtered_payloads<T>(items: Seq<(T, String)>, query: Seq<char>) -> Seq<T> {
    items.filter(|p: (T, String)| query_matches(p.1@, query)).map_values(|p: (T, String)| p.0)
}

/// An empty query filters nothing out: every payload comes back, in order.
pub proof fn law_empty_query_keeps_every_item<T>(items: Seq<(T, String)>)
    ensures
        filtered_payloads(items, Seq::empty()) == items.map_values(|p: (T, String)| p.0),
    decreases items.len(),
{
    let pred = |p: (T, String)| query_matches(p.1@, Seq::<char>::empty());
    assert(ascii_lower_seq(Seq::<char>::empty()) =~= Seq::<char>::empty());
    reveal(Seq::filter);
    if items.len() > 0 {
        law_empty_query_keeps_every_item(items.drop_last());
        assert(pred(items.last()));
        assert(items.filter(pred) == items.drop_last().filter(pred).push(items.last()));
        assert(items.map_values(|p: (T, String)| p.0) =~= items.drop_last().map_values(
            |p: (T, String)| p.0,
        ).push(items.last().0));
        assert(items.drop_last().filter(pred).push(items.last()).map_values(|p: (T, String)| p.0)
            =~= items.drop_last().filter(pred).map_values(|p: (T, String)| p.0).push(
            items.last().0,
        ));
    } else {
        assert(items.filter(pred) =~= items);
    }
}

fn text_matches_query(text: &String, lower_query: &Vec<char>, query: Ghost<Seq<char>>) -> (res: bool)
    requires
        lower_query@ == ascii_lower_seq(query@),
    ensures
        res == query_matches(text@, query@),
{
    if lower_query.len() == 0 {
        return true;
    }
    let lower_text = ascii_lower_chars(&chars_of(text.as_str()));
    match find_seq(&lower_text, lower_query) {
        Some(_) => true,
        None => false,
    }
}

/// Case-insensitive substring filter over `(payload, match_text)` pairs,
/// preserving input order. An empty query matches everything.
pub fn filter_by_query<T>(items: Vec<(T, String)>, query: &str) -> (res: Vec<T>)
    ensures
        res@ == filtered_payloads(items@, query@),
{
    let ghost all = items@;
    let ghost pred = |p: (T, String)| query_matches(p.1@, query@);
    let q = ascii_lower_chars(&chars_of(query));
    let mut out: Vec<T> = Vec::new();
    for pair in it: items.into_iter()
        invariant
            q@ == ascii_lower_seq(query@),
            pred == (|p: (T, String)| query_matches(p.1@, query@)),
            it.seq() == all,
            out@ == filtered_payloads(it.seq().take(it.index() as int), query@),
    {
        let ghost k = it.index();
        let ghost done = it.seq().take(k as int);
        proof {
            assert(it.seq().take(k + 1) =~= done.push(pair));
            done.lemma_filter_push(pair, pred);
        }
        let (item, text) = pair;
        if text_matches_query(&text, &q, Ghost(query@)) {
            proof {
                assert(done.push(pair).filter(pred) == done.filter(pred).push(pair));
                assert(done.filter(pred).push(pair).map_values(|p: (T, String)| p.0) =~= done.filter(
                    pred,
                ).map_values(|p: (T, String)| p.0).push(item));
            }
            out.push(item);
        }
    }
    proof {
        assert(all.take(all.len() as int) =~= all);
    }
    out
}

/// A branch the query matches, keyed for display: by the byte offset of the
/// first match in the ASCII-lowercased name, then the byte length of the
/// name, then the name.
pub open spec fn branch_match_key(name: Seq<char>, query: Seq<char>) -> Option<SortKeyView> {
    match first_occurrence(ascii_lower_seq(name), ascii_lower_seq(query)) {
        Some(start) => Some(
            SortKeyView {
                major: utf8_len(ascii_lower_seq(name).take(start)),
                minor: utf8_len(name),
                text: name,
            },
        ),
        None => None,
    }
}

/// The keys of the branches the query matches, in input order.
pub open spec fn branch_match_keys(names: Seq<Seq<char>>, query: Seq<char>) -> Seq<SortKeyView>
    decreases names.len(),
{
    if names.len() == 0 {
        Seq::empty()
    } else {
        let prev = branch_match_keys(names.drop_last(), query);
        match branch_match_key(names.last(), query) {
            Some(k) => prev.push(k),
            None => prev,
        }
    }
}

/// The matching branch names, ordered by where the match starts, then by
/// length, then by name (a stable order): every name for the empty query.
pub open spec fn matched_branches(names: Seq<Seq<char>>, query: Seq<char>, out: Seq<Seq<char>>) -> bool {
    if query.len() == 0 {
        out == names
    } else {
        let keys = branch_match_keys(names, query);
        exists|order: Seq<usize>|
            #[trigger] is_stable_order(keys, order) && out == order.map_values(
                |j: usize| keys[j as int].text,
            )
    }
}

pub fn match_branches(branches: &Vec<String>, query: &str) -> (res: Vec<String>)
    requires
        forall|i: int| 0 <= i < branches@.len() ==> utf8_len(#[trigger] branches@[i]@) <= usize::MAX,
    ensures
        matched_branches(branches@.map_values(|b: String| b@), query@, res@.map_values(|b: String| b@)),
{
    let ghost names = branches@.map_values(|b: String| b@);
    if query.is_empty() {
        let mut all: Vec<String> = Vec::new();
        let mut i: usize = 0;
        while i < branches.len()
            invariant
                i <= branches.len(),
                names == branches@.map_values(|b: String| b@),
                all@.map_values(|b: String| b@) == names.take(i as int),
            decreases branches.len() - i,
        {
            let b = branches[i].clone();
            assert(b@ == names[i as int]);
            let ghost before = all@;
            all.push(b);
            proof {
                lemma_map_push(before, b, |b: String| b@);
                assert(names.take(i + 1) =~= names.take(i as int).push(names[i as int]));
            }
            i += 1;
        }
        assert(names.take(names.len() as int) =~= names);
        return all;
    }
    let query_lower = ascii_lower_chars(&chars_of(query));
    let mut keys: Vec<SortKey> = Vec::new();
    let mut i: usize = 0;
    while i < branches.len()
        invariant
            i <= branches.len(),
            names == branches@.map_values(|b: String| b@),
            query_lower@ == ascii_lower_seq(query@),
            keys_view(keys@) == branch_match_keys(names.take(i as int), query@),
            forall|i: int| 0 <= i < branches@.len() ==> utf8_len(#[trigger] branches@[i]@) <= usize::MAX,
        decreases branches.len() - i,
    {
        let name_chars = chars_of(branches[i].as_str());
        let lower = ascii_lower_chars(&name_chars);
        assert(names.take(i + 1).drop_last() =~= names.take(i as int));
        assert(names.take(i + 1).last() == name_chars@);
        match find_seq(&lower, &query_lower) {
            Some(start) => {
                let prefix = sub_chars(&lower, 0, start);
                assert(prefix@ =~= lower@.take(start as int));
                assert(utf8_len(branches@[i as int]@) <= usize::MAX);
                proof {
                    lemma_utf8_len_ascii_lower(name_chars@);
                    lemma_utf8_len_take(lower@, start as int);
                }
                let major = utf8_len_of(&prefix);
                let minor = branches[i].as_str().len();
                keys.push(SortKey { major, minor, text: name_chars });
                assert(keys_view(keys@) =~= branch_match_keys(names.take(i + 1), query@));
            },
            None => {
                assert(keys_view(keys@) =~= branch_match_keys(names.take(i + 1), query@));
            },
        }
        i += 1;
    }
    assert(names.take(names.len() as int) =~= names);
    let order = stable_order(&keys);
    let ghost kv = keys_view(keys@);
    let mut out: Vec<String> = Vec::new();
    let mut k: usize = 0;
    while k < order.len()
        invariant
            k <= order.len(),
            kv == keys_view(keys@),
            is_stable_order(kv, order@),
            out@.map_values(|b: String| b@) == order@.take(k as int).map_values(
                |j: usize| kv[j as int].text,
            ),
        decreases order.len() - k,
    {
        let j = order[k];
        assert(order@[k as int] < kv.len());
        let name = string_of(&keys[j].text);
        assert(name@ == kv[j as int].text);
        let ghost before = out@;
        out.push(name);
        assert(order@.take(k + 1) =~= order@.take(k as int).push(j));
        proof {
            lemma_map_push(before, name, |b: String| b@);
            lemma_map_push(order@.take(k as int), j, |j: usize| kv[j as int].text);
        }
        k += 1;
    }
    assert(order@.take(order@.len() as int) =~= order@);
    assert(is_stable_order(branch_match_keys(names, query@), order@));
    out
}

} // verus!
