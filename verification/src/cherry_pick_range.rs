//! The cherry-pick-a-branch prompt: what its preview of the `range..source`
//! commits shows, and when it warns that the two refs are the same.
use vstd::prelude::*;
use crate::find::{first_n, lemma_map_push};
use crate::model::{commits_view, Commit, CommitView, Loadable};
use crate::text::{byte_prefix_or_all, byte_prefix_or_all_str, push_str, string_of, str_eq, trim, trimmed};
use crate::virtual_branches::{decimal, decimal_string};

verus! {

/// The loaded preview of the commits `range..source` would cherry-pick.
#[derive(Clone, Debug, PartialEq, Eq)]
pub struct CherryPickRangePreview {
    pub range: String,
    pub source: String,
    pub commits: Loadable<Vec<Commit>>,
}

/// One previewed commit: its abbreviated id, full id and subject.
#[derive(Clone, Debug, PartialEq, Eq)]
pub struct PreviewRow {
    pub short_id: String,
    pub commit_id: String,
    pub summary: String,
}

pub struct PreviewRowView {
    pub short_id: Seq<char>,
    pub commit_id: Seq<char>,
    pub summary: Seq<char>,
}

impl View for PreviewRow {
    type V = PreviewRowView;

    open spec fn view(&self) -> PreviewRowView {
        PreviewRowView { short_id: self.short_id@, commit_id: self.commit_id@, summary: self.summary@ }
    }
}

/// What the preview area of the prompt shows.
#[derive(Clone, Debug, PartialEq, Eq)]
pub enum PreviewSection {
    /// The source or the range is not picked yet, or both are the same ref.
    Hint,
    /// No matching preview has arrived yet.
    Loading,
    /// The range holds no commit to cherry-pick.
    NoCommits,
    /// The backend refused the pair (for example, the range is not an
    /// ancestor of the source).
    Error(String),
    /// A count line and the first commits.
    Commits { header: String, rows: Vec<PreviewRow> },
}

pub enum PreviewSectionView {
    Hint,
    Loading,
    NoCommits,
    Error(Seq<char>),
    Commits { header: Seq<char>, rows: Seq<PreviewRowView> },
}

impl View for PreviewSection {
    type V = PreviewSectionView;

    open spec fn view(&self) -> PreviewSectionView {
        match self {
            PreviewSection::Hint => PreviewSectionView::Hint,
            PreviewSection::Loading => PreviewSectionView::Loading,
            PreviewSection::NoCommits => PreviewSectionView::NoCommits,
            PreviewSection::Error(e) => PreviewSectionView::Error(e@),
            PreviewSection::Commits { header, rows } => PreviewSectionView::Commits {
                header: header@,
                rows: rows@.map_values(|r: PreviewRow| r@),
            },
        }
    }
}

/// At most this many commits are listed.
pub const PREVIEW_MAX_ROWS: usize = 8;

/// A commit id is shown by its first seven bytes.
pub const PREVIEW_SHORT_ID_BYTES: usize = 7;

pub open spec fn preview_row(c: CommitView) -> PreviewRowView {
    PreviewRowView {
        short_id: byte_prefix_or_all(c.id, PREVIEW_SHORT_ID_BYTES as int),
        commit_id: c.id,
        summary: c.summary,
    }
}

/// The count line over the list: how many commits will be picked, and how
/// many are listed when that is fewer.
pub open spec fn preview_header(total: nat, shown: nat) -> Seq<char> {
    if total > shown {
        decimal(total) + " commits will be cherry-picked (showing first "@ + decimal(shown)
            + " — click one to open it)"@
    } else {
        decimal(total) + " commits will be cherry-picked — click one to open it"@
    }
}

/// Nothing to preview yet: a trimmed ref is empty, or both are the same.
pub open spec fn preview_incomplete(source_target: Seq<char>, range_target: Seq<char>) -> bool {
    let source = trim(source_target);
    let range = trim(range_target);
    source.len() == 0 || range.len() == 0 || source == range
}

/// The preview area for the typed refs and the repository's loaded preview:
/// a loaded preview only counts when it is for the same trimmed refs.
pub open spec fn preview_section_spec(
    source_target: Seq<char>,
    range_target: Seq<char>,
    preview: Option<CherryPickRangePreview>,
) -> PreviewSectionView {
    if preview_incomplete(source_target, range_target) {
        PreviewSectionView::Hint
    } else {
        match preview {
            Some(p) => if p.range@ == trim(range_target) && p.source@ == trim(source_target) {
                match p.commits {
                    Loadable::Ready(cs) => if cs.len() == 0 {
                        PreviewSectionView::NoCommits
                    } else {
                        let shown = first_n(commits_view(cs@), PREVIEW_MAX_ROWS as int);
                        PreviewSectionView::Commits {
                            header: preview_header(cs.len() as nat, shown.len()),
                            rows: shown.map_values(|c: CommitView| preview_row(c)),
                        }
                    },
                    Loadable::Error(e) => PreviewSectionView::Error(e@),
                    _ => PreviewSectionView::Loading,
                }
            } else {
                PreviewSectionView::Loading
            },
            None => PreviewSectionView::Loading,
        }
    }
}

/// The warning under the form: the source is picked and the range is the
/// same ref (trimmed).
pub open spec fn same_ref_hint_spec(source_target: Seq<char>, range_target: Seq<char>) -> bool {
    trim(source_target).len() != 0 && trim(source_target) == trim(range_target)
}

pub fn same_ref_hint(source_target: &str, range_target: &str) -> (res: bool)
    ensures
        res == same_ref_hint_spec(source_target@, range_target@),
{
    let source = trimmed(source_target);
    let range = trimmed(range_target);
    !source.as_str().is_empty() && str_eq(source.as_str(), range.as_str())
}

fn preview_header_text(total: usize, shown: usize) -> (res: String)
    ensures
        res@ == preview_header(total as nat, shown as nat),
{
    let mut out = decimal_string(total as u64);
    if total > shown {
        push_str(&mut out, " commits will be cherry-picked (showing first ");
        let shown_digits = decimal_string(shown as u64);
        crate::text::push_all(&mut out, &shown_digits);
        push_str(&mut out, " — click one to open it)");
    } else {
        push_str(&mut out, " commits will be cherry-picked — click one to open it");
    }
    string_of(&out)
}

fn preview_rows(commits: &Vec<Commit>) -> (res: Vec<PreviewRow>)
    ensures
        res@.map_values(|r: PreviewRow| r@) == first_n(commits_view(commits@), PREVIEW_MAX_ROWS as int).map_values(
            |c: CommitView| preview_row(c),
        ),
{
    let ghost all = commits_view(commits@);
    let n: usize = if commits.len() < PREVIEW_MAX_ROWS {
        commits.len()
    } else {
        PREVIEW_MAX_ROWS
    };
    proof {
        if PREVIEW_MAX_ROWS >= commits.len() {
            assert(all.take(n as int) =~= all);
        }
    }
    let mut rows: Vec<PreviewRow> = Vec::new();
    let mut i: usize = 0;
    while i < n
        invariant
            i <= n <= commits.len(),
            all == commits_view(commits@),
            all.len() == commits.len(),
            first_n(all, PREVIEW_MAX_ROWS as int) == all.take(n as int),
            rows@.map_values(|r: PreviewRow| r@) == all.take(i as int).map_values(
                |c: CommitView| preview_row(c),
            ),
        decreases n - i,
    {
        let c = &commits[i];
        let row = PreviewRow {
            short_id: byte_prefix_or_all_str(c.id.as_str(), PREVIEW_SHORT_ID_BYTES).to_string(),
            commit_id: c.id.clone(),
            summary: c.summary.clone(),
        };
        proof {
            assert(all[i as int] == c@);
            lemma_map_push(rows@, row, |r: PreviewRow| r@);
            lemma_map_push(all.take(i as int), all[i as int], |c: CommitView| preview_row(c));
            assert(all.take(i + 1) =~= all.take(i as int).push(all[i as int]));
        }
        rows.push(row);
        i += 1;
    }
    rows
}

/// What the preview area shows for the typed refs and the loaded preview.
pub fn preview_section(
    source_target: &str,
    range_target: &str,
    preview: Option<&CherryPickRangePreview>,
) -> (res: PreviewSection)
    ensures
        res@ == preview_section_spec(
            source_target@,
            range_target@,
            match preview {
                Some(p) => Some(*p),
                None => None,
            },
        ),
{
    let source = trimmed(source_target);
    let range = trimmed(range_target);
    if source.as_str().is_empty() || range.as_str().is_empty() || str_eq(source.as_str(), range.as_str()) {
        return PreviewSection::Hint;
    }
    match preview {
        Some(p) => {
            if !(str_eq(p.range.as_str(), range.as_str()) && str_eq(p.source.as_str(), source.as_str())) {
                return PreviewSection::Loading;
            }
            match &p.commits {
                Loadable::Ready(commits) => {
                    if commits.len() == 0 {
                        PreviewSection::NoCommits
                    } else {
                        let rows = preview_rows(commits);
                        let shown = rows.len();
                        proof {
                            assert(rows@.map_values(|r: PreviewRow| r@).len() == rows@.len());
                        }
                        let header = preview_header_text(commits.len(), shown);
                        PreviewSection::Commits { header, rows }
                    }
                },
                Loadable::Error(e) => PreviewSection::Error(e.clone()),
                _ => PreviewSection::Loading,
            }
        },
        None => PreviewSection::Loading,
    }
}

} // verus!
