use vstd::prelude::*;

pub mod cherry_pick_range;
pub mod commit_changes;
pub mod confirm_dialogs;
pub mod context_menu;
pub mod diff_guard;
pub mod file_browser;
pub mod file_search;
pub mod find;
pub mod git_output;
pub mod log;
pub mod message;
pub mod model;
pub mod permalink;
pub mod pickers;
pub mod reflog;
pub mod reflog_read;
pub mod popover;
pub mod replay_order;
pub mod search;
pub mod sidebar;
pub mod sidebar_pins;
pub mod sorting;
pub mod text;
pub mod trace;
pub mod virtual_branch_laws;
pub mod virtual_branch_panel;
pub mod virtual_branches;
pub mod walk_tips;

verus! {
} // verus!
