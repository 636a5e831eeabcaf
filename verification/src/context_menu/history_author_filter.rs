//! The history author filter menu: "All authors" and one entry per author of
//! the loaded history.
use vstd::prelude::*;
use crate::context_menu::{
    opt_view, ContextMenuAction, ContextMenuActionView, ContextMenuItem, ContextMenuItemView,
    ContextMenuModel,
};
use crate::find::lemma_map_push;
use crate::model::{commits_view, find_repo_index, find_repo_view, AppStateView, Commit, CommitView, RepoId};
use crate::popover::PopoverHost;
use crate::sorting::{
    is_stable_order, keys_view, lemma_lex_irreflexive, lemma_lex_transitive, lex_less, stable_order,
    SortKey, SortKeyView,
};
use crate::text::{
    chars_of, eq_ignore_ascii_case, eq_ignore_ascii_case_str, to_lowercase, trim, trimmed,
    unicode_lowercase,
};

verus! {

/// The trimmed, non-empty author names of the commits, in commit order, each
/// kept only when no earlier kept name equals it up to ASCII case.
pub open spec fn distinct_authors(authors: Seq<Seq<char>>) -> Seq<Seq<char>>
    decreases authors.len(),
{
    if authors.len() == 0 {
        Seq::empty()
    } else {
        let prev = distinct_authors(authors.drop_last());
        let name = trim(authors.last());
        if name.len() == 0 || exists|j: int|
            0 <= j < prev.len() && eq_ignore_ascii_case(#[trigger] prev[j], name) {
            prev
        } else {
            prev.push(name)
        }
    }
}

pub open spec fn author_names(commits: Seq<CommitView>) -> Seq<Seq<char>> {
    commits.map_values(|c: CommitView| c.author)
}

/// Authors sort by their Unicode lowercase form.
pub open spec fn author_sort_keys(names: Seq<Seq<char>>) -> Seq<SortKeyView> {
    names.map_values(|n: Seq<char>| SortKeyView { major: 0, minor: 0, text: unicode_lowercase(n) })
}

/// `out` is the author suggestions of the commits: their distinct authors,
/// stably sorted by lowercase name.
pub open spec fn is_author_suggestions(commits: Seq<CommitView>, out: Seq<Seq<char>>) -> bool {
    let names = distinct_authors(author_names(commits));
    exists|order: Seq<usize>|
        #[trigger] is_stable_order(author_sort_keys(names), order) && out == order.map_values(
            |j: usize| names[j as int],
        )
}

proof fn lemma_distinct_authors_distinct(authors: Seq<Seq<char>>)
    ensures
        forall|i: int, j: int|
            0 <= i < j < distinct_authors(authors).len() ==> !eq_ignore_ascii_case(
                #[trigger] distinct_authors(authors)[i],
                #[trigger] distinct_authors(authors)[j],
            ),
    decreases authors.len(),
{
    if authors.len() > 0 {
        lemma_distinct_authors_distinct(authors.drop_last());
        let prev = distinct_authors(authors.drop_last());
        let name = trim(authors.last());
        let d = distinct_authors(authors);
        if !(name.len() == 0 || exists|j: int|
            0 <= j < prev.len() && eq_ignore_ascii_case(#[trigger] prev[j], name)) {
            assert forall|i: int, j: int| 0 <= i < j < d.len() implies !eq_ignore_ascii_case(
                #[trigger] d[i],
                #[trigger] d[j],
            ) by {
                if j == d.len() - 1 {
                    assert(d[j] == name);
                    assert(d[i] == prev[i]);
                    assert(!eq_ignore_ascii_case(prev[i], name));
                } else {
                    assert(d[i] == prev[i] && d[j] == prev[j]);
                }
            }
        }
    }
}

/// Suggestions never repeat an author, even spelled in another ASCII case,
/// and they come sorted by their Unicode lowercase form.
pub proof fn law_author_suggestions_are_distinct_and_sorted(
    commits: Seq<CommitView>,
    out: Seq<Seq<char>>,
)
    requires
        is_author_suggestions(commits, out),
    ensures
        forall|i: int, j: int|
            0 <= i < j < out.len() ==> !eq_ignore_ascii_case(#[trigger] out[i], #[trigger] out[j]),
        forall|i: int, j: int|
            0 <= i < j < out.len() ==> !lex_less(
                unicode_lowercase(#[trigger] out[j]),
                unicode_lowercase(#[trigger] out[i]),
            ),
{
    let names = distinct_authors(author_names(commits));
    let keys = author_sort_keys(names);
    let order = choose|order: Seq<usize>|
        #[trigger] is_stable_order(keys, order) && out == order.map_values(
            |j: usize| names[j as int],
        );
    lemma_distinct_authors_distinct(author_names(commits));
    assert forall|i: int, j: int| 0 <= i < j < out.len() implies !eq_ignore_ascii_case(
        #[trigger] out[i],
        #[trigger] out[j],
    ) by {
        let a = order[i] as int;
        let b = order[j] as int;
        assert(order[i] != order[j]);
        assert(out[i] == names[a] && out[j] == names[b]);
        if a < b {
            assert(!eq_ignore_ascii_case(names[a], names[b]));
        } else {
            assert(!eq_ignore_ascii_case(names[b], names[a]));
        }
    }
    assert forall|i: int, j: int| 0 <= i < j < out.len() implies !lex_less(
        unicode_lowercase(#[trigger] out[j]),
        unicode_lowercase(#[trigger] out[i]),
    ) by {
        let a = order[i] as int;
        let b = order[j] as int;
        assert(crate::sorting::sorted_pair(keys, order[i], order[j]));
        assert(keys[a].text == unicode_lowercase(out[i]));
        assert(keys[b].text == unicode_lowercase(out[j]));
        if lex_less(keys[b].text, keys[a].text) {
            if keys[a] == keys[b] {
                lemma_lex_irreflexive(keys[a].text);
            } else {
                lemma_lex_transitive(keys[a].text, keys[b].text, keys[a].text);
                lemma_lex_irreflexive(keys[a].text);
            }
        }
    }
}

/// Author names from the loaded log commits: trimmed, non-empty,
/// deduplicated case-insensitively and sorted.
pub fn collect_author_suggestions(commits: &Vec<Commit>) -> (res: Vec<String>)
    ensures
        is_author_suggestions(commits_view(commits@), res@.map_values(|s: String| s@)),
{
    let ghost all = author_names(commits_view(commits@));
    let mut authors: Vec<String> = Vec::new();
    let mut i: usize = 0;
    while i < commits.len()
        invariant
            i <= commits.len(),
            all == author_names(commits_view(commits@)),
            all.len() == commits.len(),
            authors@.map_values(|s: String| s@) == distinct_authors(all.take(i as int)),
        decreases commits.len() - i,
    {
        let ghost prev = authors@.map_values(|s: String| s@);
        assert(all.take(i + 1).drop_last() =~= all.take(i as int));
        assert(all.take(i + 1).last() == commits@[i as int].author@);
        let name = trimmed(commits[i].author.as_str());
        if !name.as_str().is_empty() {
            let mut seen = false;
            let mut j: usize = 0;
            while j < authors.len()
                invariant
                    j <= authors.len(),
                    prev == authors@.map_values(|s: String| s@),
                    seen == exists|k: int| 0 <= k < j && eq_ignore_ascii_case(#[trigger] prev[k], name@),
                decreases authors.len() - j,
            {
                if eq_ignore_ascii_case_str(authors[j].as_str(), name.as_str()) {
                    assert(eq_ignore_ascii_case(prev[j as int], name@));
                    seen = true;
                }
                proof {
                    if !seen {
                        assert forall|k: int| 0 <= k < j + 1 implies !eq_ignore_ascii_case(#[trigger] prev[k], name@) by {
                            if k < j {
                            }
                        }
                    }
                }
                j += 1;
            }
            if !seen {
                proof {
                    lemma_map_push(authors@, name, |s: String| s@);
                }
                authors.push(name);
            }
        }
        i += 1;
    }
    assert(all.take(all.len() as int) =~= all);
    let ghost names = authors@.map_values(|s: String| s@);
    let mut keys: Vec<SortKey> = Vec::new();
    let mut k: usize = 0;
    while k < authors.len()
        invariant
            k <= authors.len(),
            names == authors@.map_values(|s: String| s@),
            keys_view(keys@) == author_sort_keys(names.take(k as int)),
        decreases authors.len() - k,
    {
        let lower = to_lowercase(authors[k].as_str());
        let key = SortKey { major: 0, minor: 0, text: chars_of(lower.as_str()) };
        proof {
            lemma_map_push(keys@, key, |k: SortKey| k@);
            assert(names.take(k + 1) =~= names.take(k as int).push(names[k as int]));
            lemma_map_push(
                names.take(k as int),
                names[k as int],
                |n: Seq<char>| SortKeyView { major: 0, minor: 0, text: unicode_lowercase(n) },
            );
        }
        keys.push(key);
        k += 1;
    }
    assert(names.take(names.len() as int) =~= names);
    let order = stable_order(&keys);
    let mut out: Vec<String> = Vec::new();
    let mut m: usize = 0;
    while m < order.len()
        invariant
            m <= order.len(),
            names == authors@.map_values(|s: String| s@),
            is_stable_order(author_sort_keys(names), order@),
            out@.map_values(|s: String| s@) == order@.take(m as int).map_values(
                |j: usize| names[j as int],
            ),
        decreases order.len() - m,
    {
        let j = order[m];
        assert(order@[m as int] < names.len());
        let name = authors[j].clone();
        let ghost before = out@;
        out.push(name);
        assert(order@.take(m + 1) =~= order@.take(m as int).push(j));
        proof {
            lemma_map_push(before, name, |s: String| s@);
            lemma_map_push(order@.take(m as int), j, |j: usize| names[j as int]);
        }
        m += 1;
    }
    assert(order@.take(order@.len() as int) =~= order@);
    out
}

pub open spec fn check_icon(on: bool) -> Option<Seq<char>> {
    if on {
        Some("icons/check.svg"@)
    } else {
        None
    }
}

/// The entry of one suggested author, checked when it is the current filter
/// up to ASCII case.
pub open spec fn author_entry(
    repo_id: RepoId,
    current: Option<Seq<char>>,
    name: Seq<char>,
) -> ContextMenuItemView {
    ContextMenuItemView::Entry {
        label: name,
        icon: check_icon(current matches Some(c) && eq_ignore_ascii_case(c, name)),
        shortcut: None,
        disabled: false,
        action: ContextMenuActionView::SetHistoryAuthorFilter { repo_id, author: Some(name) },
    }
}

/// The author filter menu: header, description, "All authors" (checked when
/// no filter is set), then, when there are suggestions, a separator and one
/// entry per suggested author.
pub open spec fn author_filter_menu(
    repo_id: RepoId,
    current: Option<Seq<char>>,
    authors: Seq<Seq<char>>,
) -> Seq<ContextMenuItemView> {
    let head = seq![
        ContextMenuItemView::Header("Author filter"@),
        ContextMenuItemView::Description(
            "Show commits by a single author. Suggestions come from the loaded history."@,
        ),
        ContextMenuItemView::Entry {
            label: "All authors"@,
            icon: check_icon(current is None),
            shortcut: None,
            disabled: false,
            action: ContextMenuActionView::SetHistoryAuthorFilter { repo_id, author: None },
        },
    ];
    if authors.len() == 0 {
        head
    } else {
        head.push(ContextMenuItemView::Separator) + authors.map_values(
            |n: Seq<char>| author_entry(repo_id, current, n),
        )
    }
}

fn check_icon_item(on: bool) -> (res: Option<String>)
    ensures
        opt_view(res) == check_icon(on),
{
    if on {
        Some("icons/check.svg".to_owned())
    } else {
        None
    }
}

pub fn model_for(repo_id: RepoId, current: Option<String>, authors: Vec<String>) -> (res:
    ContextMenuModel)
    ensures
        res@ == author_filter_menu(repo_id, opt_view(current), authors@.map_values(|s: String| s@)),
{
    let ghost names = authors@.map_values(|s: String| s@);
    let ghost cur = opt_view(current);
    let mut items = vec![
        ContextMenuItem::Header("Author filter".to_owned()),
        ContextMenuItem::Description(
            "Show commits by a single author. Suggestions come from the loaded history.".to_owned(),
        ),
        ContextMenuItem::Entry {
            label: "All authors".to_owned(),
            icon: check_icon_item(current.is_none()),
            shortcut: None,
            disabled: false,
            action: Box::new(ContextMenuAction::SetHistoryAuthorFilter { repo_id, author: None }),
        },
    ];
    let ghost head = crate::context_menu::items_view(items@);
    if authors.len() > 0 {
        items.push(ContextMenuItem::Separator);
        let ghost with_sep = crate::context_menu::items_view(items@);
        assert(with_sep =~= head.push(ContextMenuItemView::Separator));
        let mut i: usize = 0;
        while i < authors.len()
            invariant
                i <= authors.len(),
                names == authors@.map_values(|s: String| s@),
                cur == opt_view(current),
                crate::context_menu::items_view(items@) == with_sep + names.take(i as int).map_values(
                    |n: Seq<char>| author_entry(repo_id, cur, n),
                ),
            decreases authors.len() - i,
        {
            let name = &authors[i];
            let active = match &current {
                Some(c) => eq_ignore_ascii_case_str(c.as_str(), name.as_str()),
                None => false,
            };
            let item = ContextMenuItem::Entry {
                label: name.clone(),
                icon: check_icon_item(active),
                shortcut: None,
                disabled: false,
                action: Box::new(
                    ContextMenuAction::SetHistoryAuthorFilter { repo_id, author: Some(name.clone()) },
                ),
            };
            assert(item@ == author_entry(repo_id, cur, names[i as int]));
            let ghost before = items@;
            items.push(item);
            proof {
                lemma_map_push(before, item, |i: ContextMenuItem| i@);
                assert(names.take(i + 1) =~= names.take(i as int).push(names[i as int]));
                lemma_map_push(
                    names.take(i as int),
                    names[i as int],
                    |n: Seq<char>| author_entry(repo_id, cur, n),
                );
            }
            i += 1;
        }
        assert(names.take(names.len() as int) =~= names);
    }
    let res = ContextMenuModel::new(items);
    assert(res@ =~= author_filter_menu(repo_id, cur, names));
    res
}

/// The author filter menu of repository `repo_id`, with suggestions from its
/// loaded history; an empty menu when the repository is not open.
pub open spec fn host_author_menu(
    state: AppStateView,
    repo_id: RepoId,
    out: Seq<ContextMenuItemView>,
) -> bool {
    match find_repo_view(state.repos, repo_id) {
        None => out.len() == 0,
        Some(repo) => exists|authors: Seq<Seq<char>>|
            #[trigger] suggestions_of(repo.log_commits, authors) && out == author_filter_menu(
                repo_id,
                repo.history_author_filter,
                authors,
            ),
    }
}

/// The suggestions of a loaded history; none while it loads.
pub open spec fn suggestions_of(log: Option<Seq<CommitView>>, authors: Seq<Seq<char>>) -> bool {
    match log {
        Some(commits) => is_author_suggestions(commits, authors),
        None => authors.len() == 0,
    }
}

pub fn model(host: &PopoverHost, repo_id: RepoId) -> (res: ContextMenuModel)
    ensures
        host_author_menu(host@.state, repo_id, res@),
{
    let ix = match find_repo_index(&host.state.repos, repo_id) {
        Some(ix) => ix,
        None => {
            let res = ContextMenuModel::new(Vec::new());
            assert(res@ =~= Seq::<ContextMenuItemView>::empty());
            return res;
        },
    };
    let repo = &host.state.repos[ix];
    assert(host@.state.repos[ix as int] == repo@);
    let current = match &repo.history_author_filter {
        Some(c) => Some(c.clone()),
        None => None,
    };
    let authors = match &repo.log_commits {
        Some(commits) => collect_author_suggestions(commits),
        None => Vec::new(),
    };
    let ghost names = authors@.map_values(|s: String| s@);
    assert(suggestions_of(repo@.log_commits, names));
    model_for(repo_id, current, authors)
}

} // verus!
