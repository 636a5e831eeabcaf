//! The rows the sidebar file browser shows. Entries come as a pre-order
//! listing of the tree, each with its depth; a directory that is not
//! expanded hides the entries below it. While a search is typed, the rows
//! are the matching entries and the directories above them, all unfolded.
//! Entry paths are repository-relative and `/`-separated, as the tree
//! listing gives them.
use vstd::prelude::*;
use crate::file_search::{
    file_search_matchers, file_search_matches, matcher_accepts, matchers_view, search_lines,
    DiffSearchOptions,
};
use crate::model::{strs_view, Loadable};
use crate::text::{chars_of, str_eq};

verus! {

#[derive(Clone, Copy, Debug, PartialEq, Eq, Structural)]
pub enum FileEntryKind {
    File,
    Directory,
}

/// One entry of the tree listing.
#[derive(Clone, Debug, PartialEq, Eq)]
pub struct FileEntry {
    pub path: String,
    pub name: String,
    pub depth: usize,
    pub kind: FileEntryKind,
}

pub struct FileEntryView {
    pub path: Seq<char>,
    pub name: Seq<char>,
    pub depth: usize,
    pub kind: FileEntryKind,
}

impl View for FileEntry {
    type V = FileEntryView;

    open spec fn view(&self) -> FileEntryView {
        FileEntryView { path: self.path@, name: self.name@, depth: self.depth, kind: self.kind }
    }
}

pub open spec fn entries_view(v: Seq<FileEntry>) -> Seq<FileEntryView> {
    v.map_values(|e: FileEntry| e@)
}

/// A row of the browser: which entry, how deep, and how its chevron points.
#[derive(Clone, Copy, Debug, PartialEq, Eq, Structural)]
pub struct FileBrowserVisibleRow {
    pub entry_index: usize,
    pub depth: usize,
    pub is_directory: bool,
    pub is_expanded: bool,
}

/// A directory whose path is not among the expanded ones.
pub open spec fn is_collapsed_dir(e: FileEntryView, expanded: Seq<Seq<char>>) -> bool {
    e.kind == FileEntryKind::Directory && !expanded.contains(e.path)
}

/// Entry `i` lies below entry `j`: every entry after `j`, up to and
/// including `i`, is deeper than `j`.
pub open spec fn within(entries: Seq<FileEntryView>, j: int, i: int) -> bool {
    &&& 0 <= j < i < entries.len()
    &&& forall|k: int| j < k <= i ==> entries[k].depth > entries[j].depth
}

/// Entry `i` lies below a collapsed directory.
pub open spec fn hidden_by_collapse(entries: Seq<FileEntryView>, expanded: Seq<Seq<char>>, i: int) -> bool {
    exists|j: int| #[trigger] within(entries, j, i) && is_collapsed_dir(entries[j], expanded)
}

/// Which entries the tree shows: those below no collapsed directory.
pub open spec fn visible_mask_spec(entries: Seq<FileEntryView>, expanded: Seq<Seq<char>>) -> Seq<bool> {
    Seq::new(entries.len(), |i: int| !hidden_by_collapse(entries, expanded, i))
}

/// `dir` is a directory above `path`: a non-empty part of `path` that a `/`
/// follows.
pub open spec fn is_parent_dir(dir: Seq<char>, path: Seq<char>) -> bool {
    &&& 0 < dir.len() < path.len()
    &&& path[dir.len() as int] == '/'
    &&& path.take(dir.len() as int) == dir
}

/// Some query line matches the text.
pub open spec fn any_accepts(ms: Seq<(Seq<char>, DiffSearchOptions)>, text: Seq<char>) -> bool {
    exists|m: int| 0 <= m < ms.len() && matcher_accepts(#[trigger] ms[m].0, ms[m].1, text)
}

/// While searching, entry `i` shows when its path matches or when it is a
/// directory above a matching entry.
pub open spec fn shown_in_search(
    entries: Seq<FileEntryView>,
    ms: Seq<(Seq<char>, DiffSearchOptions)>,
    i: int,
) -> bool {
    ||| any_accepts(ms, entries[i].path)
    ||| exists|m: int|
        0 <= m < entries.len() && any_accepts(ms, #[trigger] entries[m].path) && is_parent_dir(
            entries[i].path,
            entries[m].path,
        )
}

pub open spec fn row_for(e: FileEntryView, i: int, expanded: bool) -> FileBrowserVisibleRow {
    FileBrowserVisibleRow {
        entry_index: i as usize,
        depth: e.depth,
        is_directory: e.kind == FileEntryKind::Directory,
        is_expanded: expanded,
    }
}

/// The rows of the first `n` entries that `keep` keeps, in order, with
/// their chevrons from `unfolded`.
pub open spec fn kept_rows(
    entries: Seq<FileEntryView>,
    keep: spec_fn(int) -> bool,
    unfolded: spec_fn(int) -> bool,
    n: int,
) -> Seq<FileBrowserVisibleRow>
    decreases n,
{
    if n <= 0 {
        Seq::empty()
    } else {
        let prev = kept_rows(entries, keep, unfolded, n - 1);
        if keep(n - 1) {
            prev.push(row_for(entries[n - 1], n - 1, unfolded(n - 1)))
        } else {
            prev
        }
    }
}

/// The browser's rows: none before the listing has loaded; while a search
/// is typed, the entries shown in search with every directory unfolded;
/// otherwise the entries below no collapsed directory, a directory unfolded
/// when its path is expanded.
pub open spec fn visible_rows_spec(
    entries: Loadable<Vec<FileEntry>>,
    expanded: Seq<Seq<char>>,
    query: Seq<char>,
    options: DiffSearchOptions,
) -> Seq<FileBrowserVisibleRow> {
    match entries {
        Loadable::Ready(es) => {
            let ev = entries_view(es@);
            let ms = search_lines(query).map_values(|l: Seq<char>| (l, options));
            if ms.len() > 0 {
                kept_rows(
                    ev,
                    |i: int| shown_in_search(ev, ms, i),
                    |i: int| ev[i].kind == FileEntryKind::Directory,
                    ev.len() as int,
                )
            } else {
                kept_rows(
                    ev,
                    |i: int| !hidden_by_collapse(ev, expanded, i),
                    |i: int| ev[i].kind == FileEntryKind::Directory && expanded.contains(ev[i].path),
                    ev.len() as int,
                )
            }
        },
        _ => Seq::empty(),
    }
}

/// In the tree, an entry shows only inside open directories: every entry
/// it lies below is shown and expanded.
pub proof fn law_shown_entries_sit_in_open_directories(
    entries: Seq<FileEntryView>,
    expanded: Seq<Seq<char>>,
    j: int,
    i: int,
)
    requires
        within(entries, j, i),
        !hidden_by_collapse(entries, expanded, i),
    ensures
        !is_collapsed_dir(entries[j], expanded),
        !hidden_by_collapse(entries, expanded, j),
{
    if is_collapsed_dir(entries[j], expanded) {
        assert(within(entries, j, i) && is_collapsed_dir(entries[j], expanded));
    }
    if hidden_by_collapse(entries, expanded, j) {
        let c = choose|c: int| #[trigger] within(entries, c, j) && is_collapsed_dir(entries[c], expanded);
        assert(within(entries, c, i));
    }
}

proof fn lemma_parent_dir_transitive(a: Seq<char>, b: Seq<char>, c: Seq<char>)
    requires
        is_parent_dir(a, b),
        is_parent_dir(b, c),
    ensures
        is_parent_dir(a, c),
{
    assert(c.take(b.len() as int).take(a.len() as int) =~= c.take(a.len() as int));
    assert(c[a.len() as int] == c.take(b.len() as int)[a.len() as int]);
}

/// Search results keep their context: a listed directory above a shown
/// entry is shown too.
pub proof fn law_search_shows_directories_above_results(
    entries: Seq<FileEntryView>,
    ms: Seq<(Seq<char>, DiffSearchOptions)>,
    p: int,
    i: int,
)
    requires
        0 <= p < entries.len(),
        0 <= i < entries.len(),
        shown_in_search(entries, ms, i),
        is_parent_dir(entries[p].path, entries[i].path),
    ensures
        shown_in_search(entries, ms, p),
{
    if any_accepts(ms, entries[i].path) {
        assert(any_accepts(ms, entries[i].path) && is_parent_dir(entries[p].path, entries[i].path));
    } else {
        let m = choose|m: int|
            0 <= m < entries.len() && any_accepts(ms, #[trigger] entries[m].path) && is_parent_dir(
                entries[i].path,
                entries[m].path,
            );
        lemma_parent_dir_transitive(entries[p].path, entries[i].path, entries[m].path);
        assert(any_accepts(ms, entries[m].path) && is_parent_dir(entries[p].path, entries[m].path));
    }
}


fn contains_text(dirs: &Vec<String>, path: &str) -> (res: bool)
    ensures
        res == strs_view(dirs@).contains(path@),
{
    let mut i: usize = 0;
    while i < dirs.len()
        invariant
            i <= dirs.len(),
            forall|j: int| 0 <= j < i ==> dirs@[j]@ != path@,
        decreases dirs.len() - i,
    {
        if str_eq(dirs[i].as_str(), path) {
            assert(strs_view(dirs@)[i as int] == path@);
            return true;
        }
        i += 1;
    }
    proof {
        if strs_view(dirs@).contains(path@) {
            let j = choose|j: int| 0 <= j < strs_view(dirs@).len() && strs_view(dirs@)[j] == path@;
            assert(dirs@[j]@ == path@);
        }
    }
    false
}

/// The first position after `i` whose entry is no deeper than `i`, or the
/// end of the listing.
fn subtree_end(entries: &Vec<FileEntry>, i: usize) -> (end: usize)
    requires
        i < entries.len(),
    ensures
        i < end <= entries.len(),
        forall|k: int| i < k < end ==> entries@[k].depth > entries@[i as int].depth,
        end < entries.len() ==> entries@[end as int].depth <= entries@[i as int].depth,
{
    let depth = entries[i].depth;
    let mut k: usize = i + 1;
    while k < entries.len() && entries[k].depth > depth
        invariant
            i < k <= entries.len(),
            depth == entries@[i as int].depth,
            forall|m: int| i < m < k ==> entries@[m].depth > depth,
        decreases entries.len() - k,
    {
        k += 1;
    }
    k
}

/// Which entries the tree shows when nothing is searched: an entry is
/// hidden exactly when it lies below a collapsed directory.
pub fn file_browser_visible_mask(entries: &Vec<FileEntry>, expanded_dirs: &Vec<String>) -> (res: Vec<bool>)
    ensures
        res@ == visible_mask_spec(entries_view(entries@), strs_view(expanded_dirs@)),
{
    let ghost ev = entries_view(entries@);
    let ghost expanded = strs_view(expanded_dirs@);
    let mut visible: Vec<bool> = Vec::new();
    // The collapsed directory being skipped over: its depth and the end of
    // its subtree.
    let mut skip: Option<(usize, usize)> = None;
    let ghost mut dir: int = 0;
    let mut i: usize = 0;
    while i < entries.len()
        invariant
            i <= entries.len(),
            ev == entries_view(entries@),
            ev.len() == entries.len(),
            expanded == strs_view(expanded_dirs@),
            visible@.len() == i,
            forall|k: int| 0 <= k < i ==> visible@[k] == !hidden_by_collapse(ev, expanded, k),
            match skip {
                None => forall|j: int|
                    0 <= j < i && #[trigger] is_collapsed_dir(ev[j], expanded) ==> exists|k: int|
                        j < k < i && ev[k].depth <= ev[j].depth,
                Some((d, end)) => {
                    &&& 0 <= dir < i <= end <= ev.len()
                    &&& d == ev[dir].depth
                    &&& is_collapsed_dir(ev[dir], expanded)
                    &&& !hidden_by_collapse(ev, expanded, dir)
                    &&& forall|k: int| dir < k < end ==> ev[k].depth > d
                    &&& end < ev.len() ==> ev[end as int].depth <= d
                },
            },
        decreases entries.len() - i,
    {
        let depth = entries[i].depth;
        proof {
            assert(ev[i as int] == entries@[i as int]@);
        }
        let skipped = match skip {
            Some((d, end)) => i < end && depth > d,
            None => false,
        };
        if skipped {
            proof {
                assert(within(ev, dir, i as int));
                assert(hidden_by_collapse(ev, expanded, i as int));
            }
            visible.push(false);
        } else {
            proof {
                if hidden_by_collapse(ev, expanded, i as int) {
                    let j = choose|j: int| #[trigger] within(ev, j, i as int) && is_collapsed_dir(ev[j], expanded);
                    match skip {
                        None => {
                            let k = choose|k: int| j < k < i && ev[k].depth <= ev[j].depth;
                            assert(ev[k].depth > ev[j].depth);
                        },
                        Some((d, end)) => {
                            assert(i == end);
                            if j < dir {
                                assert(within(ev, j, dir));
                            } else if j == dir {
                            } else {
                                assert(ev[j].depth > d);
                            }
                        },
                    }
                    assert(false);
                }
            }
            visible.push(true);
            let is_dir = match entries[i].kind {
                FileEntryKind::Directory => true,
                FileEntryKind::File => false,
            };
            if is_dir && !contains_text(expanded_dirs, entries[i].path.as_str()) {
                let end = subtree_end(entries, i);
                skip = Some((depth, end));
                proof {
                    dir = i as int;
                }
            } else {
                skip = None;
                proof {
                    assert forall|j: int|
                        0 <= j < i + 1 && #[trigger] is_collapsed_dir(ev[j], expanded) implies exists|k: int|
                        j < k < i + 1 && ev[k].depth <= ev[j].depth by {
                        if !(exists|k: int| j < k < i + 1 && ev[k].depth <= ev[j].depth) {
                            assert(j != i);
                            assert(within(ev, j, i as int));
                        }
                    }
                }
            }
        }
        proof {
            assert(visible@[i as int] == !hidden_by_collapse(ev, expanded, i as int));
        }
        i += 1;
    }
    assert(visible@ =~= visible_mask_spec(ev, expanded));
    visible
}

fn is_parent_dir_exec(dir: &Vec<char>, path: &Vec<char>) -> (res: bool)
    ensures
        res == is_parent_dir(dir@, path@),
{
    let n = dir.len();
    if n == 0 || n >= path.len() {
        return false;
    }
    if path[n] != '/' {
        return false;
    }
    let mut k: usize = 0;
    while k < n
        invariant
            k <= n < path@.len(),
            n == dir@.len(),
            forall|j: int| 0 <= j < k ==> path@[j] == dir@[j],
        decreases n - k,
    {
        if path[k] != dir[k] {
            assert(path@.take(n as int)[k as int] != dir@[k as int]);
            return false;
        }
        k += 1;
    }
    assert(path@.take(n as int) =~= dir@);
    true
}

/// The rows the browser shows for a listing, the expanded directories, the
/// search box text and the search options.
pub fn compute_file_browser_visible_rows(
    entries: &Loadable<Vec<FileEntry>>,
    expanded_dirs: &Vec<String>,
    search_query: &str,
    options: DiffSearchOptions,
) -> (res: Vec<FileBrowserVisibleRow>)
    ensures
        res@ == visible_rows_spec(*entries, strs_view(expanded_dirs@), search_query@, options),
{
    let es = match entries {
        Loadable::Ready(es) => es,
        _ => {
            return Vec::new();
        },
    };
    let ghost ev = entries_view(es@);
    let ghost expanded = strs_view(expanded_dirs@);
    let matchers = file_search_matchers(search_query, options);
    let ghost ms = search_lines(search_query@).map_values(|l: Seq<char>| (l, options));
    let mut rows: Vec<FileBrowserVisibleRow> = Vec::new();
    if matchers.len() > 0 {
        proof {
            assert(matchers_view(matchers@).len() == matchers@.len());
        }
        let mut matching: Vec<bool> = Vec::new();
        let mut paths: Vec<Vec<char>> = Vec::new();
        let mut i: usize = 0;
        while i < es.len()
            invariant
                i <= es.len(),
                ev == entries_view(es@),
                ev.len() == es.len(),
                ms == matchers_view(matchers@),
                matching@.len() == i,
                paths@.len() == i,
                forall|k: int| 0 <= k < i ==> matching@[k] == any_accepts(ms, #[trigger] ev[k].path),
                forall|k: int| 0 <= k < i ==> (#[trigger] paths@[k])@ == ev[k].path,
            decreases es.len() - i,
        {
            let hit = file_search_matches(&matchers, es[i].path.as_str());
            proof {
                assert(ev[i as int] == es@[i as int]@);
                if hit {
                    let m = choose|m: int|
                        0 <= m < matchers@.len() && matcher_accepts(
                            #[trigger] matchers@[m]@.0,
                            matchers@[m]@.1,
                            es@[i as int].path@,
                        );
                    assert(ms[m] == matchers@[m]@);
                }
                if any_accepts(ms, ev[i as int].path) {
                    let m = choose|m: int|
                        0 <= m < ms.len() && matcher_accepts(#[trigger] ms[m].0, ms[m].1, ev[i as int].path);
                    assert(ms[m] == matchers@[m]@);
                }
            }
            matching.push(hit);
            paths.push(chars_of(es[i].path.as_str()));
            i += 1;
        }
        let ghost keep = |k: int| shown_in_search(ev, ms, k);
        let ghost unfolded = |k: int| ev[k].kind == FileEntryKind::Directory;
        let mut i: usize = 0;
        while i < es.len()
            invariant
                i <= es.len(),
                ev == entries_view(es@),
                ev.len() == es.len(),
                matching@.len() == es.len(),
                paths@.len() == es.len(),
                forall|k: int| 0 <= k < es.len() ==> matching@[k] == any_accepts(ms, #[trigger] ev[k].path),
                forall|k: int| 0 <= k < es.len() ==> (#[trigger] paths@[k])@ == ev[k].path,
                keep == (|k: int| shown_in_search(ev, ms, k)),
                unfolded == (|k: int| ev[k].kind == FileEntryKind::Directory),
                rows@ == kept_rows(ev, keep, unfolded, i as int),
            decreases es.len() - i,
        {
            let mut show = matching[i];
            if !show {
                let mut m: usize = 0;
                while m < es.len()
                    invariant
                        m <= es.len(),
                        i < es.len(),
                        ev.len() == es.len(),
                        matching@.len() == es.len(),
                        paths@.len() == es.len(),
                        forall|k: int| 0 <= k < es.len() ==> matching@[k] == any_accepts(ms, #[trigger] ev[k].path),
                        forall|k: int| 0 <= k < es.len() ==> (#[trigger] paths@[k])@ == ev[k].path,
                        show == exists|k: int|
                            0 <= k < m && any_accepts(ms, #[trigger] ev[k].path) && is_parent_dir(
                                ev[i as int].path,
                                ev[k].path,
                            ),
                    decreases es.len() - m,
                {
                    if matching[m] && is_parent_dir_exec(&paths[i], &paths[m]) {
                        proof {
                            assert(paths@[m as int]@ == ev[m as int].path);
                            assert(paths@[i as int]@ == ev[i as int].path);
                        }
                        show = true;
                    } else {
                        proof {
                            assert(paths@[m as int]@ == ev[m as int].path);
                            assert(paths@[i as int]@ == ev[i as int].path);
                        }
                    }
                    m += 1;
                }
            }
            proof {
                assert(show == shown_in_search(ev, ms, i as int));
            }
            if show {
                let is_dir = match es[i].kind {
                    FileEntryKind::Directory => true,
                    FileEntryKind::File => false,
                };
                let row = FileBrowserVisibleRow {
                    entry_index: i,
                    depth: es[i].depth,
                    is_directory: is_dir,
                    is_expanded: is_dir,
                };
                proof {
                    assert(ev[i as int] == es@[i as int]@);
                    assert(row == row_for(ev[i as int], i as int, unfolded(i as int)));
                }
                rows.push(row);
            }
            i += 1;
        }
    } else {
        let mask = file_browser_visible_mask(es, expanded_dirs);
        let ghost keep = |k: int| !hidden_by_collapse(ev, expanded, k);
        let ghost unfolded = |k: int| ev[k].kind == FileEntryKind::Directory && expanded.contains(ev[k].path);
        let mut i: usize = 0;
        while i < es.len()
            invariant
                i <= es.len(),
                ev == entries_view(es@),
                ev.len() == es.len(),
                expanded == strs_view(expanded_dirs@),
                mask@ == visible_mask_spec(ev, expanded),
                keep == (|k: int| !hidden_by_collapse(ev, expanded, k)),
                unfolded == (|k: int| ev[k].kind == FileEntryKind::Directory && expanded.contains(ev[k].path)),
                rows@ == kept_rows(ev, keep, unfolded, i as int),
            decreases es.len() - i,
        {
            if mask[i] {
                let is_dir = match es[i].kind {
                    FileEntryKind::Directory => true,
                    FileEntryKind::File => false,
                };
                let is_expanded = is_dir && contains_text(expanded_dirs, es[i].path.as_str());
                let row = FileBrowserVisibleRow {
                    entry_index: i,
                    depth: es[i].depth,
                    is_directory: is_dir,
                    is_expanded,
                };
                proof {
                    assert(ev[i as int] == es@[i as int]@);
                    assert(row == row_for(ev[i as int], i as int, unfolded(i as int)));
                }
                rows.push(row);
            }
            i += 1;
        }
    }
    rows
}

} // verus!
