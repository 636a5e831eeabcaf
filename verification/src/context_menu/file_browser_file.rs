//! The context menu of a file row in the sidebar file browser.
use vstd::prelude::*;
use crate::context_menu::{
    copy_file_source, icon_entry, icon_entry_item, items_view, opt_view, path_text_for_copy,
    push_item, resolve_workdir_path_spec, ContextMenuAction, ContextMenuActionView,
    ContextMenuItem, ContextMenuItemView, ContextMenuModel,
};
use crate::model::{
    find_repo_index, find_repo_view, AppStateView, DiffArea, DiffTarget, DiffTargetView, FileSource,
    FileSourceView, RepoId, RepoStateView,
};
use crate::permalink::{file_permalink, file_permalink_spec};
use crate::popover::{PopoverHost, PopoverKind, PopoverKindView};
use crate::text::{chars_of, last_char, rfind_char, str_eq, string_of, sub_chars};

verus! {

/// The last component of a `/`-separated path that is neither empty nor `.`.
pub open spec fn last_segment(path: Seq<char>) -> Option<Seq<char>>
    decreases path.len(),
{
    match last_char(path, '/') {
        Some(i) => if 0 <= i < path.len() {
            let seg = path.skip(i + 1);
            if seg.len() == 0 || seg == "."@ {
                last_segment(path.take(i))
            } else {
                Some(seg)
            }
        } else {
            None
        },
        None => if path.len() == 0 || path == "."@ {
            None
        } else {
            Some(path)
        },
    }
}

/// `Path::file_name`: the last component, unless the path ends in `..` or
/// has no component at all.
pub open spec fn file_name(path: Seq<char>) -> Option<Seq<char>> {
    match last_segment(path) {
        Some(seg) => if seg == ".."@ {
            None
        } else {
            Some(seg)
        },
        None => None,
    }
}

/// The text `{:?}` gives for a path: quoted, with special characters escaped.
pub uninterp spec fn path_debug(path: Seq<char>) -> Seq<char>;

/// `<Path as Debug>::fmt`, through `format!("{:?}")`. The result depends on
/// the path alone; the escaping rules are not written out.
#[verifier::external_body]
fn path_debug_text(path: &str) -> (res: String)
    ensures
        res@ == path_debug(path@),
{
    format!("{:?}", std::path::Path::new(path))
}

fn file_name_exec(path: &str) -> (res: Option<String>)
    ensures
        opt_view(res) == file_name(path@),
{
    let chars = chars_of(path);
    let mut end = chars.len();
    assert(chars@.take(end as int) =~= chars@);
    loop
        invariant
            end <= chars.len(),
            chars@ == path@,
            last_segment(path@) == last_segment(chars@.take(end as int)),
        decreases end,
    {
        let prefix = sub_chars(&chars, 0, end);
        assert(prefix@ =~= chars@.take(end as int));
        match rfind_char(&prefix, '/') {
            Some(i) => {
                let seg = sub_chars(&prefix, i + 1, end);
                assert(seg@ =~= prefix@.skip(i + 1));
                let seg_text = string_of(&seg);
                if seg.len() == 0 || str_eq(seg_text.as_str(), ".") {
                    assert(prefix@.take(i as int) =~= chars@.take(i as int));
                    end = i;
                } else {
                    if str_eq(seg_text.as_str(), "..") {
                        return None;
                    }
                    return Some(seg_text);
                }
            },
            None => {
                let text = string_of(&prefix);
                if prefix.len() == 0 || str_eq(text.as_str(), ".") || str_eq(text.as_str(), "..") {
                    return None;
                }
                return Some(text);
            },
        }
    }
}

/// The diff the browsed source offers for the file: the unstaged worktree
/// diff, the commit's diff of the file, or none for a branch.
pub open spec fn diff_target_for(source: FileSourceView, path: Seq<char>) -> Option<DiffTargetView> {
    match source {
        FileSourceView::WorkingDirectory => Some(
            DiffTargetView::WorkingTree { path, area: DiffArea::Unstaged },
        ),
        FileSourceView::Commit(commit_id) => Some(
            DiffTargetView::Commit { commit_id, path: Some(path) },
        ),
        FileSourceView::Branch(_) => None,
    }
}

pub fn diff_target_for_source(source: &FileSource, path: &str) -> (res: Option<DiffTarget>)
    ensures
        match res {
            Some(t) => diff_target_for(source@, path@) == Some(t@),
            None => diff_target_for(source@, path@) is None,
        },
{
    match source {
        FileSource::WorkingDirectory => Some(
            DiffTarget::WorkingTree { path: path.to_owned(), area: DiffArea::Unstaged },
        ),
        FileSource::Commit(commit_id) => Some(
            DiffTarget::Commit { commit_id: commit_id.clone(), path: Some(path.to_owned()) },
        ),
        FileSource::Branch(_) => None,
    }
}

/// The reference a file permalink points at: the browsed commit or branch,
/// or for the working directory the checked-out branch (none when detached).
pub open spec fn permalink_reference(repo: RepoStateView, source: FileSourceView) -> Option<
    Seq<char>,
> {
    match source {
        FileSourceView::Commit(c) => Some(c),
        FileSourceView::Branch(b) => Some(b),
        FileSourceView::WorkingDirectory => match repo.head_branch {
            Some(h) => if h.len() > 0 && h != "HEAD"@ {
                Some(h)
            } else {
                None
            },
            None => None,
        },
    }
}

/// The file's permalink, when the repository's remotes have loaded and
/// point at a known forge.
pub open spec fn browser_permalink(
    state: AppStateView,
    repo_id: RepoId,
    source: FileSourceView,
    path: Seq<char>,
) -> Option<Seq<char>> {
    match find_repo_view(state.repos, repo_id) {
        Some(repo) => match (repo.remotes, permalink_reference(repo, source)) {
            (Some(remotes), Some(reference)) => file_permalink_spec(remotes, reference, path),
            _ => None,
        },
        None => None,
    }
}

/// The browsed source of the repository (the working directory when it is
/// not open).
pub open spec fn browsed_source(state: AppStateView, repo_id: RepoId) -> FileSourceView {
    match find_repo_view(state.repos, repo_id) {
        Some(repo) => repo.file_browser_source,
        None => FileSourceView::WorkingDirectory,
    }
}

/// The menu of file `path` in the file browser of repository `repo_id`:
/// the file name and path, "Open", "Open diff" where the source has a diff,
/// the on-disk actions for the working directory, "File history", the
/// permalink when there is one, and "Copy path".
pub open spec fn file_browser_menu(
    state: AppStateView,
    repo_id: RepoId,
    path: Seq<char>,
) -> Seq<ContextMenuItemView> {
    let source = browsed_source(state, repo_id);
    let title = match file_name(path) {
        Some(n) => n,
        None => path_debug(path),
    };
    let copy_text = match resolve_workdir_path_spec(state, repo_id, path) {
        Ok(p) => p,
        Err(_) => path,
    };
    let head = seq![
        ContextMenuItemView::Header(title),
        ContextMenuItemView::Label(path),
        ContextMenuItemView::Separator,
        icon_entry(
            "Open"@,
            "icons/file.svg"@,
            ContextMenuActionView::OpenFileContent { repo_id, source, path },
        ),
    ];
    let diff = match diff_target_for(source, path) {
        Some(target) => seq![
            icon_entry(
                "Open diff"@,
                "icons/open_external.svg"@,
                ContextMenuActionView::SelectDiff { repo_id, target },
            ),
        ],
        None => Seq::empty(),
    };
    let on_disk = if source is WorkingDirectory {
        seq![
            icon_entry(
                "Open file"@,
                "icons/open_external.svg"@,
                ContextMenuActionView::OpenFile { repo_id, path },
            ),
            icon_entry(
                "Open file location"@,
                "icons/folder.svg"@,
                ContextMenuActionView::OpenFileLocation { repo_id, path },
            ),
        ]
    } else {
        Seq::empty()
    };
    let history = seq![
        icon_entry(
            "File history"@,
            "icons/refresh.svg"@,
            ContextMenuActionView::OpenPopover {
                kind: PopoverKindView::FileHistory { repo_id, path },
            },
        ),
    ];
    let permalink = match browser_permalink(state, repo_id, source, path) {
        Some(link) => seq![
            icon_entry(
                "Copy file permalink"@,
                "icons/copy.svg"@,
                ContextMenuActionView::CopyText { text: link },
            ),
        ],
        None => Seq::empty(),
    };
    let tail = seq![
        ContextMenuItemView::Separator,
        icon_entry(
            "Copy path"@,
            "icons/copy.svg"@,
            ContextMenuActionView::CopyText { text: copy_text },
        ),
    ];
    head + diff + on_disk + history + permalink + tail
}

/// Context menu for a file row in the sidebar file browser. The browsed
/// source (working directory, commit or branch) is read from state so the
/// menu offers the right actions for each.
pub fn model(this: &PopoverHost, repo_id: RepoId, path: &str) -> (res: ContextMenuModel)
    ensures
        res@ == file_browser_menu(this@.state, repo_id, path@),
{
    let ghost state = this@.state;
    let repo_ix = find_repo_index(&this.state.repos, repo_id);
    let source = match repo_ix {
        Some(ix) => {
            assert(state.repos[ix as int] == this.state.repos@[ix as int]@);
            copy_file_source(&this.state.repos[ix].file_browser_source)
        },
        None => FileSource::WorkingDirectory,
    };
    assert(source@ == browsed_source(state, repo_id));
    let copy_path_text = match this.resolve_workdir_path(repo_id, path) {
        Ok(p) => path_text_for_copy(p.as_str()),
        Err(_) => path_text_for_copy(path),
    };
    let title = match file_name_exec(path) {
        Some(n) => n,
        None => path_debug_text(path),
    };
    let mut items: Vec<ContextMenuItem> = Vec::new();
    push_item(&mut items, ContextMenuItem::Header(title));
    push_item(&mut items, ContextMenuItem::Label(path.to_owned()));
    push_item(&mut items, ContextMenuItem::Separator);
    push_item(
        &mut items,
        icon_entry_item(
            "Open".to_owned(),
            "icons/file.svg",
            ContextMenuAction::OpenFileContent {
                repo_id,
                source: copy_file_source(&source),
                path: path.to_owned(),
            },
        ),
    );
    let ghost head = items_view(items@);
    match diff_target_for_source(&source, path) {
        Some(target) => {
            push_item(
                &mut items,
                icon_entry_item(
                    "Open diff".to_owned(),
                    "icons/open_external.svg",
                    ContextMenuAction::SelectDiff { repo_id, target },
                ),
            );
        },
        None => {},
    }
    let ghost with_diff = items_view(items@);
    let is_working_directory = match &source {
        FileSource::WorkingDirectory => true,
        _ => false,
    };
    if is_working_directory {
        push_item(
            &mut items,
            icon_entry_item(
                "Open file".to_owned(),
                "icons/open_external.svg",
                ContextMenuAction::OpenFile { repo_id, path: path.to_owned() },
            ),
        );
        push_item(
            &mut items,
            icon_entry_item(
                "Open file location".to_owned(),
                "icons/folder.svg",
                ContextMenuAction::OpenFileLocation { repo_id, path: path.to_owned() },
            ),
        );
    }
    let ghost with_disk = items_view(items@);
    push_item(
        &mut items,
        icon_entry_item(
            "File history".to_owned(),
            "icons/refresh.svg",
            ContextMenuAction::OpenPopover {
                kind: PopoverKind::FileHistory { repo_id, path: path.to_owned() },
            },
        ),
    );
    let ghost with_history = items_view(items@);
    let link = permalink_for(this, repo_ix, repo_id, &source, path);
    match link {
        Some(text) => {
            push_item(
                &mut items,
                icon_entry_item(
                    "Copy file permalink".to_owned(),
                    "icons/copy.svg",
                    ContextMenuAction::CopyText { text },
                ),
            );
        },
        None => {},
    }
    let ghost with_link = items_view(items@);
    push_item(&mut items, ContextMenuItem::Separator);
    push_item(
        &mut items,
        icon_entry_item(
            "Copy path".to_owned(),
            "icons/copy.svg",
            ContextMenuAction::CopyText { text: copy_path_text },
        ),
    );
    let res = ContextMenuModel::new(items);
    assert(res@ =~= file_browser_menu(state, repo_id, path@));
    res
}

fn permalink_for(
    this: &PopoverHost,
    repo_ix: Option<usize>,
    repo_id: RepoId,
    source: &FileSource,
    path: &str,
) -> (res: Option<String>)
    requires
        match repo_ix {
            Some(ix) => ix < this.state.repos@.len() && find_repo_view(this@.state.repos, repo_id)
                == Some(this.state.repos@[ix as int]@),
            None => find_repo_view(this@.state.repos, repo_id) is None,
        },
    ensures
        opt_view(res) == browser_permalink(this@.state, repo_id, source@, path@),
{
    let ix = match repo_ix {
        Some(ix) => ix,
        None => return None,
    };
    let repo = &this.state.repos[ix];
    let remotes = match &repo.remotes {
        Some(r) => r,
        None => return None,
    };
    let reference: String = match source {
        FileSource::Commit(c) => c.clone(),
        FileSource::Branch(b) => b.clone(),
        FileSource::WorkingDirectory => match &repo.head_branch {
            Some(h) => {
                if h.as_str().is_empty() || str_eq(h.as_str(), "HEAD") {
                    return None;
                }
                h.clone()
            },
            None => return None,
        },
    };
    file_permalink(remotes.as_slice(), reference.as_str(), path)
}


/// A file permalink names what is browsed: for a browsed branch or commit
/// the link points at that branch or commit itself, whichever branch is
/// checked out.
pub proof fn law_permalink_points_at_the_browsed_source(
    state: AppStateView,
    repo_id: RepoId,
    path: Seq<char>,
    reference: Seq<char>,
)
    requires
        find_repo_view(state.repos, repo_id) matches Some(repo) && repo.remotes is Some,
    ensures
        browser_permalink(state, repo_id, FileSourceView::Branch(reference), path) == file_permalink_spec(
            find_repo_view(state.repos, repo_id)->0.remotes->0,
            reference,
            path,
        ),
        browser_permalink(state, repo_id, FileSourceView::Commit(reference), path) == file_permalink_spec(
            find_repo_view(state.repos, repo_id)->0.remotes->0,
            reference,
            path,
        ),
{
}

} // verus!
