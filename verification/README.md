# gitcomet

The state and interface logic of the GitComet Git client, written in Verus.
The functions in `src/` carry contracts that Verus proves; the few calls into
std and the `regex` crate go through small wrappers whose contracts are
trusted.

- `virtual_branches`, `virtual_branch_laws`: the reducer for virtual
  branches (grouping worktree changes, parking and restoring hunks) and the
  laws it keeps.
- `log`, `replay_order`, `git_output`, `reflog_read`, `commit_changes`:
  history paging, recent commit messages, commit ordering for replays,
  reading file names out of `git log --follow` and `git diff-tree` output,
  the HEAD reflog and stash list, and the files a commit changes.
- `context_menu` and its submodules: the context menus, their keyboard
  handling, and what activating an entry does.
- `file_browser`, `file_search`, `search`, `sidebar`, `reflog`,
  `cherry_pick_range`: what the sidebar, pickers and prompts show.
- `permalink`: web links to commits and files on common forges.
- `text`, `find`, `sorting`: the string, search and ordering helpers the
  contracts are stated over.

`app/` holds the program around the library: reading the trace settings from
the environment and opening the trace file. `tests/` runs the library on
concrete values.
