//! The guard a selected-diff load carries: its result is only wanted while
//! the same diff, at the same revision, is still selected.
use vstd::prelude::*;
use crate::model::{find_repo_index, find_repo_view, AppState, AppStateView, DiffTarget, DiffTargetView, RepoId};
use crate::text::str_eq;

verus! {

/// The selection a diff load was started for.
#[derive(Clone, Debug, PartialEq, Eq)]
pub struct SelectedDiffLoadGuard {
    pub repo_id: RepoId,
    pub target: DiffTarget,
    pub target_rev: u64,
}

/// The repository is open, and its selected diff and selection revision are
/// still the guarded ones.
pub open spec fn still_selected(
    state: AppStateView,
    repo_id: RepoId,
    target: DiffTargetView,
    target_rev: u64,
) -> bool {
    match find_repo_view(state.repos, repo_id) {
        Some(repo) => repo.diff_target_rev == target_rev && repo.diff_target == Some(target),
        None => false,
    }
}

/// Whether two diff targets are the same.
pub fn diff_target_eq(a: &DiffTarget, b: &DiffTarget) -> (res: bool)
    ensures
        res == (a@ == b@),
{
    match (a, b) {
        (
            DiffTarget::WorkingTree { path: pa, area: aa },
            DiffTarget::WorkingTree { path: pb, area: ab },
        ) => str_eq(pa.as_str(), pb.as_str()) && *aa == *ab,
        (
            DiffTarget::Commit { commit_id: ca, path: pa },
            DiffTarget::Commit { commit_id: cb, path: pb },
        ) => {
            if !str_eq(ca.as_str(), cb.as_str()) {
                return false;
            }
            match (pa, pb) {
                (Some(x), Some(y)) => str_eq(x.as_str(), y.as_str()),
                (None, None) => true,
                _ => false,
            }
        },
        _ => false,
    }
}

impl SelectedDiffLoadGuard {
    pub fn new(repo_id: RepoId, target: DiffTarget, target_rev: u64) -> (res: SelectedDiffLoadGuard)
        ensures
            res.repo_id == repo_id && res.target@ == target@ && res.target_rev == target_rev,
    {
        SelectedDiffLoadGuard { repo_id, target, target_rev }
    }

    /// Whether the guarded selection is still current in `state`.
    pub fn is_current(&self, state: &AppState) -> (res: bool)
        ensures
            res == still_selected(state@, self.repo_id, self.target@, self.target_rev),
    {
        match find_repo_index(&state.repos, self.repo_id) {
            Some(ix) => {
                let repo = &state.repos[ix];
                assert(state@.repos[ix as int] == repo@);
                if repo.diff_target_rev != self.target_rev {
                    return false;
                }
                match &repo.diff_target {
                    Some(t) => diff_target_eq(t, &self.target),
                    None => false,
                }
            },
            None => false,
        }
    }
}

/// Which parts of a selected diff to load; `S` names a side of a preview.
#[derive(Clone, Copy, Debug, PartialEq, Eq)]
pub struct SelectedDiffLoadOptions<S> {
    pub load_patch_diff: bool,
    pub load_file_text: bool,
    pub preview_text_side: Option<S>,
    pub load_submodule_summary: bool,
    pub load_file_image: bool,
}

/// One load started for a selected diff, each on a task of its own.
#[derive(Clone, Copy, Debug, PartialEq, Eq)]
pub enum SelectedDiffLoad<S> {
    SubmoduleSummary,
    FileImage,
    PreviewText(S),
    FileText,
    PatchDiff,
}

/// The loads the options ask for, in the order they are started: the
/// submodule summary, the file image, the preview text, the file text and
/// the parsed patch.
pub open spec fn selected_diff_loads_spec<S>(o: SelectedDiffLoadOptions<S>) -> Seq<SelectedDiffLoad<S>> {
    (if o.load_submodule_summary { seq![SelectedDiffLoad::SubmoduleSummary] } else { Seq::empty() })
        + (if o.load_file_image { seq![SelectedDiffLoad::FileImage] } else { Seq::empty() })
        + (match o.preview_text_side {
        Some(side) => seq![SelectedDiffLoad::PreviewText(side)],
        None => Seq::empty(),
    }) + (if o.load_file_text { seq![SelectedDiffLoad::FileText] } else { Seq::empty() })
        + (if o.load_patch_diff { seq![SelectedDiffLoad::PatchDiff] } else { Seq::empty() })
}

/// The loads to start for a selected diff, in order.
pub fn selected_diff_loads<S: Copy>(options: &SelectedDiffLoadOptions<S>) -> (res: Vec<SelectedDiffLoad<S>>)
    ensures
        res@ == selected_diff_loads_spec(*options),
{
    let mut out: Vec<SelectedDiffLoad<S>> = Vec::new();
    if options.load_submodule_summary {
        out.push(SelectedDiffLoad::SubmoduleSummary);
    }
    if options.load_file_image {
        out.push(SelectedDiffLoad::FileImage);
    }
    match options.preview_text_side {
        Some(side) => out.push(SelectedDiffLoad::PreviewText(side)),
        None => {},
    }
    if options.load_file_text {
        out.push(SelectedDiffLoad::FileText);
    }
    if options.load_patch_diff {
        out.push(SelectedDiffLoad::PatchDiff);
    }
    assert(out@ =~= selected_diff_loads_spec(*options));
    out
}

} // verus!
