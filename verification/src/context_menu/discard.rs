//! Discarding worktree changes once the user confirmed: which paths go, and
//! the store messages that discard them.
use vstd::prelude::*;
use crate::message::{Msg, MsgView};
use crate::model::{
    find_repo_index, find_repo_view, strs_view, AppStateView, DiffArea, DiffTarget, DiffTargetView,
    RepoId,
};
use crate::popover::PopoverHost;
use crate::text::str_eq;

verus! {

/// The paths a confirmed discard covers, and whether it takes the status
/// multi-selection away (the selection is consumed when it is used).
#[derive(Clone, Debug, PartialEq, Eq)]
pub struct DiscardTargets {
    pub paths: Vec<String>,
    pub takes_selection: bool,
}

/// For a clicked path: the multi-selection when it holds more than one path
/// and the clicked one among them, else the clicked path alone. Without a
/// clicked path: the whole selection, taken. `selection` is the selected
/// paths of the area, if the repository has a multi-selection.
pub open spec fn discard_targets_spec(
    clicked: Option<Seq<char>>,
    selection: Option<Seq<Seq<char>>>,
) -> (Seq<Seq<char>>, bool) {
    match clicked {
        Some(c) => match selection {
            Some(sel) => if sel.len() > 1 && sel.contains(c) {
                (sel, true)
            } else {
                (seq![c], false)
            },
            None => (seq![c], false),
        },
        None => match selection {
            Some(sel) => (sel, true),
            None => (Seq::empty(), false),
        },
    }
}

fn contains_path(paths: &Vec<String>, path: &String) -> (res: bool)
    ensures
        res == strs_view(paths@).contains(path@),
{
    let mut i: usize = 0;
    while i < paths.len()
        invariant
            i <= paths.len(),
            forall|j: int| 0 <= j < i ==> paths@[j]@ != path@,
        decreases paths.len() - i,
    {
        if str_eq(paths[i].as_str(), path.as_str()) {
            assert(strs_view(paths@)[i as int] == path@);
            return true;
        }
        i += 1;
    }
    proof {
        if strs_view(paths@).contains(path@) {
            let j = choose|j: int| 0 <= j < strs_view(paths@).len() && strs_view(paths@)[j] == path@;
            assert(paths@[j]@ == path@);
        }
    }
    false
}

/// Which paths a confirmed discard covers.
pub fn discard_targets(clicked: Option<String>, selection: Option<Vec<String>>) -> (res: DiscardTargets)
    ensures
        (strs_view(res.paths@), res.takes_selection) == discard_targets_spec(
            match clicked {
                Some(c) => Some(c@),
                None => None,
            },
            match selection {
                Some(s) => Some(strs_view(s@)),
                None => None,
            },
        ),
{
    match clicked {
        Some(c) => match selection {
            Some(sel) => {
                if sel.len() > 1 && contains_path(&sel, &c) {
                    DiscardTargets { paths: sel, takes_selection: true }
                } else {
                    let paths = vec![c];
                    assert(strs_view(paths@) =~= seq![paths@[0]@]);
                    DiscardTargets { paths, takes_selection: false }
                }
            },
            None => {
                let paths = vec![c];
                assert(strs_view(paths@) =~= seq![paths@[0]@]);
                DiscardTargets { paths, takes_selection: false }
            },
        },
        None => match selection {
            Some(sel) => DiscardTargets { paths: sel, takes_selection: true },
            None => {
                let paths: Vec<String> = Vec::new();
                assert(strs_view(paths@) =~= Seq::<Seq<char>>::empty());
                DiscardTargets { paths, takes_selection: false }
            },
        },
    }
}

/// The active repository is `repo_id` and its selected diff is the worktree
/// diff of `path`.
pub open spec fn path_is_selected(state: AppStateView, repo_id: RepoId, path: Seq<char>) -> bool {
    &&& state.active_repo == Some(repo_id)
    &&& find_repo_view(state.repos, repo_id) matches Some(repo)
    &&& repo.diff_target matches Some(DiffTargetView::WorkingTree { path: p, .. })
    &&& p == path
}

/// The messages that discard `paths`: several paths clear the diff
/// selection and go together; a single path is discarded after the diff
/// view moves off it: an added or untracked file's diff is cleared when it is
/// the one shown, any other file's unstaged diff is shown. No path, no
/// message.
pub open spec fn discard_messages_spec(
    state: AppStateView,
    repo_id: RepoId,
    paths: Seq<Seq<char>>,
    is_added_file: bool,
) -> Seq<MsgView> {
    if paths.len() > 1 {
        seq![
            MsgView::ClearDiffSelection { repo_id },
            MsgView::DiscardWorktreeChangesPaths { repo_id, paths },
        ]
    } else if paths.len() == 0 {
        Seq::empty()
    } else {
        let path = paths[0];
        let first = if is_added_file {
            if path_is_selected(state, repo_id, path) {
                seq![MsgView::ClearDiffSelection { repo_id }]
            } else {
                Seq::empty()
            }
        } else {
            seq![
                MsgView::SelectDiff {
                    repo_id,
                    target: DiffTargetView::WorkingTree { path, area: DiffArea::Unstaged },
                },
            ]
        };
        first.push(MsgView::DiscardWorktreeChangesPath { repo_id, path })
    }
}

pub open spec fn msgs_view(v: Seq<Msg>) -> Seq<MsgView> {
    v.map_values(|m: Msg| m@)
}

impl PopoverHost {
    fn path_is_selected(&self, repo_id: RepoId, path: &String) -> (res: bool)
        ensures
            res == path_is_selected(self@.state, repo_id, path@),
    {
        match self.state.active_repo {
            Some(active) => if active != repo_id {
                return false;
            },
            None => {
                return false;
            },
        }
        match find_repo_index(&self.state.repos, repo_id) {
            Some(ix) => {
                let repo = &self.state.repos[ix];
                assert(self@.state.repos[ix as int] == repo@);
                match &repo.diff_target {
                    Some(target) => {
                        match target {
                            DiffTarget::WorkingTree { path: p, .. } => str_eq(p.as_str(), path.as_str()),
                            _ => false,
                        }
                    },
                    None => false,
                }
            },
            None => false,
        }
    }

    /// The messages a confirmed discard of `paths` dispatches, in order.
    /// `is_added_file` says whether the single path's status is added or
    /// untracked.
    pub fn discard_worktree_changes_confirmed(
        &self,
        repo_id: RepoId,
        paths: Vec<String>,
        is_added_file: bool,
    ) -> (res: Vec<Msg>)
        ensures
            msgs_view(res@) == discard_messages_spec(self@.state, repo_id, strs_view(paths@), is_added_file),
    {
        let mut out: Vec<Msg> = Vec::new();
        if paths.len() > 1 {
            let ghost pv = strs_view(paths@);
            out.push(Msg::ClearDiffSelection { repo_id });
            out.push(Msg::DiscardWorktreeChangesPaths { repo_id, paths });
            assert(msgs_view(out@) =~= discard_messages_spec(self@.state, repo_id, pv, is_added_file));
            return out;
        }
        if paths.len() == 0 {
            assert(msgs_view(out@) =~= Seq::<MsgView>::empty());
            return out;
        }
        let path = paths[0].clone();
        assert(path@ == strs_view(paths@)[0]);
        if is_added_file {
            if self.path_is_selected(repo_id, &path) {
                out.push(Msg::ClearDiffSelection { repo_id });
            }
        } else {
            out.push(
                Msg::SelectDiff {
                    repo_id,
                    target: DiffTarget::WorkingTree { path: path.clone(), area: DiffArea::Unstaged },
                },
            );
        }
        out.push(Msg::DiscardWorktreeChangesPath { repo_id, path });
        assert(msgs_view(out@) =~= discard_messages_spec(self@.state, repo_id, strs_view(paths@), is_added_file));
        out
    }
}

} // verus!
