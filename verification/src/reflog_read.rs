//! Turning reflog lines, newest first as the reference log is read back,
//! into the entries the UI lists: the HEAD reflog with `HEAD@{n}` selectors,
//! and the stash list with the tips of the stashes.
use vstd::prelude::*;
use crate::find::first_n;
use crate::reflog::{entries_view, ReflogEntry, ReflogEntryView};
use crate::text::{push_str, string_of, str_eq};
use crate::virtual_branches::{decimal, decimal_string};

verus! {

/// One reflog line: the object id it moved to (in hex) and its message.
#[derive(Clone, Debug, PartialEq, Eq)]
pub struct ReflogLine {
    pub new_id: String,
    pub message: String,
}

pub open spec fn lines_view(v: Seq<ReflogLine>) -> Seq<(Seq<char>, Seq<char>)> {
    v.map_values(|l: ReflogLine| (l.new_id@, l.message@))
}

/// `HEAD@{n}`.
pub open spec fn head_selector(n: nat) -> Seq<char> {
    "HEAD@{"@ + decimal(n) + "}"@
}

/// The entry of the `i`-th line.
pub open spec fn head_entry(line: (Seq<char>, Seq<char>), i: int) -> ReflogEntryView {
    ReflogEntryView { index: i as usize, new_id: line.0, message: line.1, selector: head_selector(i as nat) }
}

/// The HEAD reflog entries: the first `limit` lines, numbered from zero.
pub open spec fn head_entries_spec(lines: Seq<(Seq<char>, Seq<char>)>, limit: nat) -> Seq<ReflogEntryView> {
    let kept = first_n(lines, limit as int);
    Seq::new(kept.len(), |i: int| head_entry(kept[i], i))
}

fn head_selector_text(n: usize) -> (res: String)
    ensures
        res@ == head_selector(n as nat),
{
    let mut out: Vec<char> = Vec::new();
    push_str(&mut out, "HEAD@{");
    let digits = decimal_string(n as u64);
    crate::text::push_all(&mut out, &digits);
    push_str(&mut out, "}");
    string_of(&out)
}

/// The HEAD reflog as listed: at most `limit` entries from the newest
/// lines, each with its position and `HEAD@{position}` selector.
pub fn reflog_head_entries(lines: &Vec<ReflogLine>, limit: usize) -> (res: Vec<ReflogEntry>)
    ensures
        entries_view(res@) == head_entries_spec(lines_view(lines@), limit as nat),
{
    let ghost lv = lines_view(lines@);
    let ghost kept = first_n(lv, limit as int);
    let n = if lines.len() < limit {
        lines.len()
    } else {
        limit
    };
    proof {
        if limit >= lines.len() {
            assert(kept == lv);
        }
        assert(kept.len() == n);
    }
    let mut out: Vec<ReflogEntry> = Vec::new();
    let mut i: usize = 0;
    while i < n
        invariant
            i <= n <= lines.len(),
            lv == lines_view(lines@),
            kept == first_n(lv, limit as int),
            kept.len() == n,
            forall|k: int| 0 <= k < n ==> kept[k] == lv[k],
            entries_view(out@) == Seq::new(i as nat, |k: int| head_entry(kept[k], k)),
        decreases n - i,
    {
        let line = &lines[i];
        let entry = ReflogEntry {
            index: i,
            new_id: line.new_id.clone(),
            message: line.message.clone(),
            selector: head_selector_text(i),
        };
        proof {
            assert(lv[i as int] == (line.new_id@, line.message@));
            assert(entry@ == head_entry(kept[i as int], i as int));
        }
        let ghost before = out@;
        out.push(entry);
        assert(entries_view(out@) =~= entries_view(before).push(entry@));
        assert(entries_view(out@) =~= Seq::new((i + 1) as nat, |k: int| head_entry(kept[k], k))) by {
            assert(entries_view(before).len() == i);
            assert(entries_view(out@).len() == i + 1);
            assert forall|k: int| 0 <= k < i + 1 implies #[trigger] entries_view(out@)[k] == head_entry(
                kept[k],
                k,
            ) by {
                if k < i {
                    assert(entries_view(out@)[k] == entries_view(before)[k]);
                }
            }
        }
        i += 1;
    }
    assert(entries_view(out@) =~= head_entries_spec(lv, limit as nat));
    out
}

/// The all-zero object id: a line that records no object.
pub open spec fn is_null_id(id: Seq<char>) -> bool {
    forall|i: int| 0 <= i < id.len() ==> #[trigger] id[i] == '0'
}

fn is_null_id_exec(id: &str) -> (res: bool)
    ensures
        res == is_null_id(id@),
{
    let chars = crate::text::chars_of(id);
    let mut i: usize = 0;
    while i < chars.len()
        invariant
            i <= chars.len(),
            chars@ == id@,
            forall|k: int| 0 <= k < i ==> chars@[k] == '0',
        decreases chars.len() - i,
    {
        if chars[i] != '0' {
            return false;
        }
        i += 1;
    }
    true
}

/// One stash: its position in the stash reflog, its commit and its message.
#[derive(Clone, Debug, PartialEq, Eq)]
pub struct StashEntry {
    pub index: usize,
    pub id: String,
    pub message: String,
}

pub struct StashEntryView {
    pub index: usize,
    pub id: Seq<char>,
    pub message: Seq<char>,
}

impl View for StashEntry {
    type V = StashEntryView;

    open spec fn view(&self) -> StashEntryView {
        StashEntryView { index: self.index, id: self.id@, message: self.message@ }
    }
}

pub open spec fn stashes_view(v: Seq<StashEntry>) -> Seq<StashEntryView> {
    v.map_values(|e: StashEntry| e@)
}

/// The stashes of the first `n` lines: each line that records an object,
/// keeping its line position as the stash index.
pub open spec fn stash_entries_spec(lines: Seq<(Seq<char>, Seq<char>)>, n: int) -> Seq<StashEntryView>
    decreases n,
{
    if n <= 0 {
        Seq::empty()
    } else {
        let prev = stash_entries_spec(lines, n - 1);
        let line = lines[n - 1];
        if is_null_id(line.0) {
            prev
        } else {
            prev.push(StashEntryView { index: (n - 1) as usize, id: line.0, message: line.1 })
        }
    }
}

/// The stash list from the stash reflog's lines.
pub fn stash_reflog_entries(lines: &Vec<ReflogLine>) -> (res: Vec<StashEntry>)
    ensures
        stashes_view(res@) == stash_entries_spec(lines_view(lines@), lines@.len() as int),
{
    let ghost lv = lines_view(lines@);
    let mut out: Vec<StashEntry> = Vec::new();
    let mut i: usize = 0;
    while i < lines.len()
        invariant
            i <= lines.len(),
            lv == lines_view(lines@),
            stashes_view(out@) == stash_entries_spec(lv, i as int),
        decreases lines.len() - i,
    {
        let line = &lines[i];
        assert(lv[i as int] == (line.new_id@, line.message@));
        if !is_null_id_exec(line.new_id.as_str()) {
            let e = StashEntry { index: i, id: line.new_id.clone(), message: line.message.clone() };
            let ghost before = out@;
            out.push(e);
            assert(stashes_view(out@) =~= stashes_view(before).push(e@));
        }
        i += 1;
    }
    out
}

/// The distinct objects the first `n` lines record, in line order.
pub open spec fn stash_tips_spec(lines: Seq<(Seq<char>, Seq<char>)>, n: int) -> Seq<Seq<char>>
    decreases n,
{
    if n <= 0 {
        Seq::empty()
    } else {
        let prev = stash_tips_spec(lines, n - 1);
        let id = lines[n - 1].0;
        if is_null_id(id) || prev.contains(id) {
            prev
        } else {
            prev.push(id)
        }
    }
}

pub(crate) fn contains_id(ids: &Vec<String>, id: &str) -> (res: bool)
    ensures
        res == ids@.map_values(|s: String| s@).contains(id@),
{
    let ghost v = ids@.map_values(|s: String| s@);
    let mut i: usize = 0;
    while i < ids.len()
        invariant
            i <= ids.len(),
            v == ids@.map_values(|s: String| s@),
            forall|k: int| 0 <= k < i ==> v[k] != id@,
        decreases ids.len() - i,
    {
        assert(v[i as int] == ids@[i as int]@);
        if str_eq(ids[i].as_str(), id) {
            return true;
        }
        i += 1;
    }
    false
}

/// The commits the stashes point at, each once, from the newest `limit`
/// lines of the stash reflog.
pub fn stash_reflog_tips(lines: &Vec<ReflogLine>, limit: usize) -> (res: Vec<String>)
    ensures
        res@.map_values(|s: String| s@) == stash_tips_spec(
            lines_view(lines@),
            if lines@.len() < limit { lines@.len() as int } else { limit as int },
        ),
{
    let ghost lv = lines_view(lines@);
    let n = if lines.len() < limit {
        lines.len()
    } else {
        limit
    };
    let mut tips: Vec<String> = Vec::new();
    let mut i: usize = 0;
    while i < n
        invariant
            i <= n <= lines.len(),
            lv == lines_view(lines@),
            tips@.map_values(|s: String| s@) == stash_tips_spec(lv, i as int),
        decreases n - i,
    {
        let id = &lines[i].new_id;
        assert(lv[i as int].0 == id@);
        if !is_null_id_exec(id.as_str()) && !contains_id(&tips, id.as_str()) {
            let ghost before = tips@;
            tips.push(id.clone());
            assert(tips@.map_values(|s: String| s@) =~= before.map_values(|s: String| s@).push(id@));
        }
        i += 1;
    }
    tips
}

/// The stash tips never repeat a commit and never name the all-zero id.
pub proof fn law_stash_tips_are_distinct_objects(lines: Seq<(Seq<char>, Seq<char>)>, n: int)
    ensures
        forall|i: int, j: int|
            0 <= i < j < stash_tips_spec(lines, n).len() ==> #[trigger] stash_tips_spec(lines, n)[i]
                != #[trigger] stash_tips_spec(lines, n)[j],
        forall|i: int|
            0 <= i < stash_tips_spec(lines, n).len() ==> !is_null_id(#[trigger] stash_tips_spec(lines, n)[i]),
    decreases n,
{
    if n > 0 {
        law_stash_tips_are_distinct_objects(lines, n - 1);
        let prev = stash_tips_spec(lines, n - 1);
        let cur = stash_tips_spec(lines, n);
        let id = lines[n - 1].0;
        if !(is_null_id(id) || prev.contains(id)) {
            assert forall|i: int, j: int| 0 <= i < j < cur.len() implies #[trigger] cur[i] != #[trigger] cur[j] by {
                if j == prev.len() {
                    assert(cur[i] == prev[i]);
                }
            }
        }
    }
}

} // verus!
