//! Reading the name a file has in a commit out of git's text output: the
//! `--name-status` rows of `git log --follow` (one record per commit, each
//! opened by a record separator and the commit hash) and of
//! `git diff-tree -M`. Rows are `<status>\t<path>[\t<path>]`.
use vstd::prelude::*;
use crate::find::{first_where, is_first_where, lemma_first_where_found, lemma_first_where_none};
use crate::text::{
    chars_eq, chars_of, lines_exec, lines_spec, lemma_split_char_nonempty, pieces_view,
    split_char, split_char_exec, string_of, trim, trim_chars,
};

verus! {

/// What a `--name-status` row says of the followed file's name in the
/// commit.
#[derive(Clone, Debug, PartialEq, Eq)]
pub enum NameStatusTarget {
    /// The file has this name in the commit's tree.
    Path(String),
    /// The file was deleted under this name, that is renamed away at the
    /// commit; a rename lookup in the commit finds where it went.
    RenamedAway(String),
    /// The row names no path to go by.
    Unknown,
}

pub enum NameStatusTargetView {
    Path(Seq<char>),
    RenamedAway(Seq<char>),
    Unknown,
}

impl View for NameStatusTarget {
    type V = NameStatusTargetView;

    open spec fn view(&self) -> NameStatusTargetView {
        match self {
            NameStatusTarget::Path(p) => NameStatusTargetView::Path(p@),
            NameStatusTarget::RenamedAway(p) => NameStatusTargetView::RenamedAway(p@),
            NameStatusTarget::Unknown => NameStatusTargetView::Unknown,
        }
    }
}

/// The `k`-th tab-separated field, if the row has one.
pub open spec fn field(fields: Seq<Seq<char>>, k: int) -> Option<Seq<char>> {
    if 0 <= k < fields.len() {
        Some(fields[k])
    } else {
        None
    }
}

/// A rename or copy names the file's new name second; an addition, a change
/// or a type change names it first; a deletion names the name it was renamed
/// away from. Any other status says nothing.
pub open spec fn name_status_target(line: Seq<char>) -> NameStatusTargetView {
    let f = split_char(line, '\t');
    let status = f[0];
    if status.len() == 0 {
        NameStatusTargetView::Unknown
    } else if status[0] == 'R' || status[0] == 'C' {
        match field(f, 2) {
            Some(p) => NameStatusTargetView::Path(p),
            None => NameStatusTargetView::Unknown,
        }
    } else if status[0] == 'A' || status[0] == 'M' || status[0] == 'T' {
        match field(f, 1) {
            Some(p) => NameStatusTargetView::Path(p),
            None => NameStatusTargetView::Unknown,
        }
    } else if status[0] == 'D' {
        match field(f, 1) {
            Some(p) => NameStatusTargetView::RenamedAway(p),
            None => NameStatusTargetView::Unknown,
        }
    } else {
        NameStatusTargetView::Unknown
    }
}

/// Interprets one `--name-status` row as the file's name in its commit.
pub fn interpret_name_status(status_line: &str) -> (res: NameStatusTarget)
    ensures
        res@ == name_status_target(status_line@),
{
    let fields = split_char_exec(&chars_of(status_line), '\t');
    proof {
        lemma_split_char_nonempty(status_line@, '\t');
        assert(pieces_view(fields@)[0] == fields@[0]@);
    }
    let status = &fields[0];
    if status.len() == 0 {
        return NameStatusTarget::Unknown;
    }
    let c = status[0];
    if c == 'R' || c == 'C' {
        if fields.len() > 2 {
            assert(pieces_view(fields@)[2] == fields@[2]@);
            NameStatusTarget::Path(string_of(&fields[2]))
        } else {
            NameStatusTarget::Unknown
        }
    } else if c == 'A' || c == 'M' || c == 'T' {
        if fields.len() > 1 {
            assert(pieces_view(fields@)[1] == fields@[1]@);
            NameStatusTarget::Path(string_of(&fields[1]))
        } else {
            NameStatusTarget::Unknown
        }
    } else if c == 'D' {
        if fields.len() > 1 {
            assert(pieces_view(fields@)[1] == fields@[1]@);
            NameStatusTarget::RenamedAway(string_of(&fields[1]))
        } else {
            NameStatusTarget::Unknown
        }
    } else {
        NameStatusTarget::Unknown
    }
}

/// The non-blank lines of a record, trimmed.
pub open spec fn record_lines(record: Seq<char>) -> Seq<Seq<char>> {
    lines_spec(record).map_values(|l: Seq<char>| trim(l)).filter(|l: Seq<char>| l.len() > 0)
}

/// The record opens with the commit's hash.
pub open spec fn is_commit_record(record: Seq<char>, commit: Seq<char>) -> bool {
    record_lines(record).len() > 0 && record_lines(record)[0] == commit
}

/// The followed file's row in the first record of `commit`: the line after
/// its hash, if there is one.
pub open spec fn follow_status_line(output: Seq<char>, commit: Seq<char>) -> Option<Seq<char>> {
    let records = split_char(output, '\u{1e}');
    match first_where(records, |r: Seq<char>| is_commit_record(r, commit)) {
        Some(i) => if record_lines(records[i]).len() > 1 {
            Some(record_lines(records[i])[1])
        } else {
            None
        },
        None => None,
    }
}

fn record_lines_exec(record: &Vec<char>) -> (res: Vec<Vec<char>>)
    ensures
        pieces_view(res@) == record_lines(record@),
{
    let lines = lines_exec(record);
    let ghost ls = lines_spec(record@).map_values(|l: Seq<char>| trim(l));
    let ghost keep = |l: Seq<char>| l.len() > 0;
    let mut out: Vec<Vec<char>> = Vec::new();
    let mut i: usize = 0;
    while i < lines.len()
        invariant
            i <= lines.len(),
            pieces_view(lines@) == lines_spec(record@),
            ls == lines_spec(record@).map_values(|l: Seq<char>| trim(l)),
            ls.len() == lines.len(),
            keep == (|l: Seq<char>| l.len() > 0),
            pieces_view(out@) == ls.take(i as int).filter(keep),
        decreases lines.len() - i,
    {
        let t = trim_chars(&lines[i]);
        proof {
            assert(pieces_view(lines@)[i as int] == lines@[i as int]@);
            assert(t@ == ls[i as int]);
            assert(ls.take(i + 1) =~= ls.take(i as int).push(ls[i as int]));
            ls.take(i as int).lemma_filter_push(ls[i as int], keep);
        }
        if t.len() > 0 {
            let ghost before = out@;
            out.push(t);
            assert(pieces_view(out@) =~= pieces_view(before).push(t@));
        }
        i += 1;
    }
    assert(ls.take(ls.len() as int) =~= ls);
    out
}

/// The followed file's `--name-status` row for `commit` in the output of
/// `git log --follow --name-status --format=%x1e%H`.
pub fn follow_status_line_exec(output: &str, commit: &str) -> (res: Option<String>)
    ensures
        match res {
            Some(l) => follow_status_line(output@, commit@) == Some(l@),
            None => follow_status_line(output@, commit@) is None,
        },
{
    let records = split_char_exec(&chars_of(output), '\u{1e}');
    let target = chars_of(commit);
    let ghost recs = split_char(output@, '\u{1e}');
    let ghost p = |r: Seq<char>| is_commit_record(r, commit@);
    let mut i: usize = 0;
    while i < records.len()
        invariant
            i <= records.len(),
            recs == pieces_view(records@),
            recs == split_char(output@, '\u{1e}'),
            recs.len() == records.len(),
            target@ == commit@,
            p == (|r: Seq<char>| is_commit_record(r, commit@)),
            forall|j: int| 0 <= j < i ==> !p(#[trigger] recs[j]),
        decreases records.len() - i,
    {
        let ls = record_lines_exec(&records[i]);
        proof {
            assert(recs[i as int] == records@[i as int]@);
        }
        let opens = if ls.len() > 0 {
            assert(pieces_view(ls@)[0] == ls@[0]@);
            chars_eq(&ls[0], &target)
        } else {
            false
        };
        if opens {
            proof {
                assert(is_first_where(recs, p, i as int));
                lemma_first_where_found(recs, p, i as int);
            }
            if ls.len() > 1 {
                assert(pieces_view(ls@)[1] == ls@[1]@);
                return Some(string_of(&ls[1]));
            }
            return None;
        }
        i += 1;
    }
    proof {
        lemma_first_where_none(recs, p);
    }
    None
}

/// What the `git log --follow` output says of the file's name in `commit`.
pub fn follow_log_target(output: &str, commit: &str) -> (res: NameStatusTarget)
    ensures
        res@ == match follow_status_line(output@, commit@) {
            Some(l) => name_status_target(l),
            None => NameStatusTargetView::Unknown,
        },
{
    match follow_status_line_exec(output, commit) {
        Some(line) => interpret_name_status(line.as_str()),
        None => NameStatusTarget::Unknown,
    }
}

/// A rename or copy row of `old`: its destination.
pub open spec fn rename_row_destination(line: Seq<char>, old: Seq<char>) -> Option<Seq<char>> {
    let f = split_char(line, '\t');
    if f[0].len() > 0 && (f[0][0] == 'R' || f[0][0] == 'C') && f.len() >= 3 && f[1] == old {
        Some(f[2])
    } else {
        None
    }
}

/// The destination of the first rename or copy of `old` among the rows of
/// `git diff-tree -M --name-status` output.
pub open spec fn rename_destination(output: Seq<char>, old: Seq<char>) -> Option<Seq<char>> {
    let ls = lines_spec(output);
    match first_where(ls, |l: Seq<char>| rename_row_destination(l, old) is Some) {
        Some(i) => rename_row_destination(ls[i], old),
        None => None,
    }
}

/// Where `old_path` was renamed to, read from `git diff-tree -M
/// --name-status` output.
pub fn rename_destination_in_diff_tree(output: &str, old_path: &str) -> (res: Option<String>)
    ensures
        match res {
            Some(p) => rename_destination(output@, old_path@) == Some(p@),
            None => rename_destination(output@, old_path@) is None,
        },
{
    let lines = lines_exec(&chars_of(output));
    let old = chars_of(old_path);
    let ghost ls = lines_spec(output@);
    let ghost p = |l: Seq<char>| rename_row_destination(l, old_path@) is Some;
    let mut i: usize = 0;
    while i < lines.len()
        invariant
            i <= lines.len(),
            ls == pieces_view(lines@),
            ls == lines_spec(output@),
            ls.len() == lines.len(),
            old@ == old_path@,
            p == (|l: Seq<char>| rename_row_destination(l, old_path@) is Some),
            forall|j: int| 0 <= j < i ==> !p(#[trigger] ls[j]),
        decreases lines.len() - i,
    {
        let fields = split_char_exec(&lines[i], '\t');
        proof {
            assert(ls[i as int] == lines@[i as int]@);
            lemma_split_char_nonempty(ls[i as int], '\t');
            assert(pieces_view(fields@)[0] == fields@[0]@);
        }
        let status = &fields[0];
        let renamed = status.len() > 0 && (status[0] == 'R' || status[0] == 'C');
        if renamed && fields.len() >= 3 {
            assert(pieces_view(fields@)[1] == fields@[1]@);
            assert(pieces_view(fields@)[2] == fields@[2]@);
            if chars_eq(&fields[1], &old) {
                proof {
                    assert(is_first_where(ls, p, i as int));
                    lemma_first_where_found(ls, p, i as int);
                }
                return Some(string_of(&fields[2]));
            }
        }
        i += 1;
    }
    proof {
        lemma_first_where_none(ls, p);
    }
    None
}

} // verus!
