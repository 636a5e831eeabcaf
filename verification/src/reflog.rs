//! The reflog picker: the text a query matches an entry by, and the entries
//! a query keeps.
use vstd::prelude::*;
use crate::find::{first_where, is_first_where, lemma_first_where_found, lemma_first_where_none, lemma_map_push};
use crate::model::RepoId;
use crate::popover::{PopoverKind, PopoverKindView, ResetMode};
use crate::search::{query_matches, short_id, short_id_string};
use crate::text::{ascii_lower_chars, ascii_lower_seq, chars_of, concat, find_seq, trim, trim_chars};

verus! {

/// One entry of the HEAD reflog.
#[derive(Clone, Debug, PartialEq, Eq)]
pub struct ReflogEntry {
    pub index: usize,
    pub new_id: String,
    pub message: String,
    pub selector: String,
}

pub struct ReflogEntryView {
    pub index: usize,
    pub new_id: Seq<char>,
    pub message: Seq<char>,
    pub selector: Seq<char>,
}

impl View for ReflogEntry {
    type V = ReflogEntryView;

    open spec fn view(&self) -> ReflogEntryView {
        ReflogEntryView {
            index: self.index,
            new_id: self.new_id@,
            message: self.message@,
            selector: self.selector@,
        }
    }
}

pub open spec fn entries_view(entries: Seq<ReflogEntry>) -> Seq<ReflogEntryView> {
    entries.map_values(|e: ReflogEntry| e@)
}

/// The selector, the short id and the message, separated by spaces.
pub open spec fn match_text(e: ReflogEntryView) -> Seq<char> {
    e.selector + " "@ + short_id(e.new_id) + " "@ + e.message
}

pub fn reflog_match_text(entry: &ReflogEntry) -> (res: String)
    ensures
        res@ == match_text(entry@),
{
    let short = short_id_string(entry.new_id.as_str());
    let a = concat(entry.selector.as_str(), " ");
    let b = concat(a.as_str(), short.as_str());
    let c = concat(b.as_str(), " ");
    concat(c.as_str(), entry.message.as_str())
}

/// The indices of the entries whose match text contains the trimmed query
/// (ASCII case aside), in order; every entry for a blank query.
pub open spec fn filtered_indices(entries: Seq<ReflogEntryView>, query: Seq<char>) -> Seq<usize> {
    entries.filter(|e: ReflogEntryView| query_matches(match_text(e), trim(query))).map_values(
        |e: ReflogEntryView| e.index,
    )
}

pub fn filtered_entry_indices(entries: &Vec<ReflogEntry>, query: &str) -> (res: Vec<usize>)
    ensures
        res@ == filtered_indices(entries_view(entries@), query@),
{
    let ghost ev = entries_view(entries@);
    let ghost pred = |e: ReflogEntryView| query_matches(match_text(e), trim(query@));
    let q = ascii_lower_chars(&trim_chars(&chars_of(query)));
    let mut out: Vec<usize> = Vec::new();
    let mut i: usize = 0;
    while i < entries.len()
        invariant
            i <= entries.len(),
            ev == entries_view(entries@),
            q@ == ascii_lower_seq(trim(query@)),
            pred == (|e: ReflogEntryView| query_matches(match_text(e), trim(query@))),
            out@ == ev.take(i as int).filter(pred).map_values(|e: ReflogEntryView| e.index),
        decreases entries.len() - i,
    {
        let ghost done = ev.take(i as int);
        assert(ev.take(i + 1) =~= done.push(ev[i as int]));
        proof {
            done.lemma_filter_push(ev[i as int], pred);
        }
        let text = reflog_match_text(&entries[i]);
        let keep = if q.len() == 0 {
            true
        } else {
            let lower = ascii_lower_chars(&chars_of(text.as_str()));
            match find_seq(&lower, &q) {
                Some(_) => true,
                None => false,
            }
        };
        assert(keep == pred(ev[i as int]));
        if keep {
            let ghost before = out@;
            out.push(entries[i].index);
            proof {
                lemma_map_push(done.filter(pred), ev[i as int], |e: ReflogEntryView| e.index);
            }
        }
        i += 1;
    }
    assert(ev.take(ev.len() as int) =~= ev);
    out
}

/// The position of the entry the selection sits on: the `selected`-th
/// index the query keeps, looked up among the entries.
pub open spec fn selected_entry_spec(
    entries: Seq<ReflogEntryView>,
    query: Seq<char>,
    selected: Option<usize>,
) -> Option<int> {
    match selected {
        Some(d) => {
            let kept = filtered_indices(entries, query);
            if d < kept.len() {
                first_where(entries, |e: ReflogEntryView| e.index == kept[d as int])
            } else {
                None
            }
        },
        None => None,
    }
}

/// Where the selection sits among the entries, if on one.
pub fn selected_entry(entries: &Vec<ReflogEntry>, query: &str, selected_index: Option<usize>) -> (res:
    Option<usize>)
    ensures
        match res {
            Some(pos) => selected_entry_spec(entries_view(entries@), query@, selected_index) == Some(
                pos as int,
            ),
            None => selected_entry_spec(entries_view(entries@), query@, selected_index) is None,
        },
{
    let display_ix = match selected_index {
        Some(d) => d,
        None => {
            return None;
        },
    };
    let kept = filtered_entry_indices(entries, query);
    if display_ix >= kept.len() {
        return None;
    }
    let wanted = kept[display_ix];
    let ghost ev = entries_view(entries@);
    let ghost p = |e: ReflogEntryView| e.index == wanted;
    proof {
        let kept_spec = filtered_indices(entries_view(entries@), query@);
        assert(p =~= (|e: ReflogEntryView| e.index == kept_spec[display_ix as int]));
    }
    let mut i: usize = 0;
    while i < entries.len()
        invariant
            i <= entries.len(),
            ev == entries_view(entries@),
            ev.len() == entries.len(),
            p == (|e: ReflogEntryView| e.index == wanted),
            kept@ == filtered_indices(ev, query@),
            selected_index == Some(display_ix),
            display_ix < kept@.len(),
            wanted == kept@[display_ix as int],
            p =~= (|e: ReflogEntryView| e.index == filtered_indices(ev, query@)[display_ix as int]),
            forall|j: int| 0 <= j < i ==> !p(#[trigger] ev[j]),
        decreases entries.len() - i,
    {
        if entries[i].index == wanted {
            proof {
                assert(ev[i as int] == entries@[i as int]@);
                assert(is_first_where(ev, p, i as int));
                lemma_first_where_found(ev, p, i as int);
            }
            return Some(i);
        }
        proof {
            assert(ev[i as int] == entries@[i as int]@);
        }
        i += 1;
    }
    proof {
        lemma_first_where_none(ev, p);
    }
    None
}

/// What the footer says and which commit its reset buttons target.
#[derive(Clone, Debug, PartialEq, Eq)]
pub struct ReflogFooter {
    pub summary: String,
    pub reset_target: Option<String>,
}

/// The footer line: a note when the reflog is empty, the selected entry's
/// selector and short commit, or how to select one.
pub open spec fn footer_summary(entries: Seq<ReflogEntryView>, selected: Option<int>) -> Seq<char> {
    if entries.len() == 0 {
        "No entries yet."@
    } else {
        match selected {
            Some(pos) => entries[pos].selector + " · commit "@ + short_id(entries[pos].new_id),
            None => "Select an entry with ↑/↓, then reset HEAD to it."@,
        }
    }
}

/// The footer under the reflog list for the query and the selection: its
/// summary, and the selected entry's commit as the reset target.
pub fn reflog_footer(entries: &Vec<ReflogEntry>, query: &str, selected_index: Option<usize>) -> (res:
    ReflogFooter)
    ensures
        ({
            let sel = selected_entry_spec(entries_view(entries@), query@, selected_index);
            &&& res.summary@ == footer_summary(entries_view(entries@), sel)
            &&& res.reset_target matches Some(t) ==> sel matches Some(pos) && t@ == entries@[pos].new_id@
            &&& res.reset_target is None ==> sel is None
        }),
{
    let selected = selected_entry(entries, query, selected_index);
    let ghost ev = entries_view(entries@);
    let reset_target = match selected {
        Some(pos) => Some(entries[pos].new_id.clone()),
        None => None,
    };
    let summary = if entries.len() == 0 {
        "No entries yet.".to_string()
    } else {
        match selected {
            Some(pos) => {
                let e = &entries[pos];
                assert(ev[pos as int] == e@);
                let short = short_id_string(e.new_id.as_str());
                let head = concat(e.selector.as_str(), " · commit ");
                concat(head.as_str(), short.as_str())
            },
            None => "Select an entry with ↑/↓, then reset HEAD to it.".to_string(),
        }
    };
    ReflogFooter { summary, reset_target }
}

impl ReflogFooter {
    /// The reset confirmation a footer button opens for `mode`; none while
    /// no entry is selected.
    pub fn reset_prompt(&self, repo_id: RepoId, mode: ResetMode) -> (res: Option<PopoverKind>)
        ensures
            match self.reset_target {
                Some(t) => res matches Some(k) && k@ == (PopoverKindView::ResetPrompt {
                    repo_id,
                    target: t@,
                    mode,
                }),
                None => res is None,
            },
    {
        match &self.reset_target {
            Some(t) => Some(PopoverKind::ResetPrompt { repo_id, target: t.clone(), mode }),
            None => None,
        }
    }
}

} // verus!
