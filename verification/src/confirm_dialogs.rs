//! What the confirmation dialogs say: closing while terminals still run
//! commands, closing with unsaved file edits, and squashing commits.
use vstd::prelude::*;
use crate::model::{strs_view, Loadable};
use crate::search::{short_id, short_id_string};
use crate::text::{is_blank, is_blank_str, push_all, push_str, string_of};
use crate::virtual_branches::{clone_strings, decimal, decimal_string};

verus! {

/// What would stop the running terminals.
#[derive(Clone, Copy, Debug, PartialEq, Eq, Structural)]
pub enum TerminalShutdownAction {
    QuitApp,
    CloseWindow,
    CloseRepo,
    CloseTerminalForRepo,
    CloseTerminalTab,
}

/// The dialog shown before terminals with running commands are terminated.
pub struct TerminalShutdownDialog {
    pub title: String,
    pub confirm_label: String,
    pub text: String,
    /// The repositories whose terminals are affected, listed when the whole
    /// window or the app goes away.
    pub listed_repos: Vec<String>,
}

pub open spec fn terminal_title(a: TerminalShutdownAction) -> Seq<char> {
    match a {
        TerminalShutdownAction::QuitApp => "Quit GitComet?"@,
        TerminalShutdownAction::CloseWindow => "Close window?"@,
        _ => "Close terminal?"@,
    }
}

pub open spec fn terminal_confirm_label(a: TerminalShutdownAction) -> Seq<char> {
    match a {
        TerminalShutdownAction::QuitApp => "Terminate and quit"@,
        _ => "Terminate and close"@,
    }
}

pub open spec fn terminal_label(terminals: nat) -> Seq<char> {
    if terminals == 1 {
        "terminal"@
    } else {
        decimal(terminals) + " terminals"@
    }
}

pub open spec fn running_detail(running: nat, label: Seq<char>) -> Seq<char> {
    if running == 1 {
        "1 running command is still active in "@ + label + "."@
    } else {
        decimal(running) + " running commands are still active in "@ + label + "."@
    }
}

pub open spec fn terminal_shutdown_text(terminals: nat, running: nat) -> Seq<char> {
    running_detail(running, terminal_label(terminals))
        + " Cancel to keep the terminal open, or terminate it to continue."@
}

pub open spec fn lists_repos(a: TerminalShutdownAction, repo_count: nat) -> bool {
    repo_count != 0 && (a is CloseWindow || a is QuitApp)
}

fn terminal_label_text(terminals: usize) -> (res: Vec<char>)
    ensures
        res@ == terminal_label(terminals as nat),
{
    let mut out: Vec<char> = Vec::new();
    if terminals == 1 {
        push_str(&mut out, "terminal");
    } else {
        out = decimal_string(terminals as u64);
        push_str(&mut out, " terminals");
    }
    out
}

/// The dialog for `action` when `terminal_count` terminals still run
/// `running_command_count` commands in the repositories `repo_names`.
pub fn terminal_shutdown_dialog(
    action: TerminalShutdownAction,
    terminal_count: usize,
    running_command_count: usize,
    repo_names: &Vec<String>,
) -> (res: TerminalShutdownDialog)
    ensures
        res.title@ == terminal_title(action),
        res.confirm_label@ == terminal_confirm_label(action),
        res.text@ == terminal_shutdown_text(terminal_count as nat, running_command_count as nat),
        strs_view(res.listed_repos@) == (if lists_repos(action, repo_names.len() as nat) {
            strs_view(repo_names@)
        } else {
            Seq::empty()
        }),
{
    let title: &str = match action {
        TerminalShutdownAction::QuitApp => "Quit GitComet?",
        TerminalShutdownAction::CloseWindow => "Close window?",
        _ => "Close terminal?",
    };
    let confirm_label: &str = match action {
        TerminalShutdownAction::QuitApp => "Terminate and quit",
        _ => "Terminate and close",
    };
    let label = terminal_label_text(terminal_count);
    let mut text: Vec<char> = Vec::new();
    if running_command_count == 1 {
        push_str(&mut text, "1 running command is still active in ");
    } else {
        text = decimal_string(running_command_count as u64);
        push_str(&mut text, " running commands are still active in ");
    }
    push_all(&mut text, &label);
    push_str(&mut text, ".");
    push_str(&mut text, " Cancel to keep the terminal open, or terminate it to continue.");
    let shows = repo_names.len() != 0 && (match action {
        TerminalShutdownAction::CloseWindow | TerminalShutdownAction::QuitApp => true,
        _ => false,
    });
    let listed_repos = if shows {
        clone_strings(repo_names)
    } else {
        let empty: Vec<String> = Vec::new();
        assert(strs_view(empty@) =~= Seq::<Seq<char>>::empty());
        empty
    };
    TerminalShutdownDialog {
        title: title.to_owned(),
        confirm_label: confirm_label.to_owned(),
        text: string_of(&text),
        listed_repos,
    }
}

/// What would throw the unsaved edits away.
#[derive(Clone, Copy, Debug, PartialEq, Eq, Structural)]
pub enum UnsavedEditsAction {
    CloseWindow,
    QuitApp,
}

/// At most this many edited files are named; a last line counts the rest.
pub const UNSAVED_FILES_SHOWN: usize = 8;

/// The dialog shown before edited but unsaved files would be discarded.
pub struct UnsavedEditsDialog {
    pub title: String,
    pub discard_label: String,
    pub text: String,
    pub shown_files: Vec<String>,
    /// `…and <n> more` when more files are edited than are shown.
    pub more: Option<String>,
}

pub open spec fn unsaved_title(a: UnsavedEditsAction) -> Seq<char> {
    match a {
        UnsavedEditsAction::CloseWindow => "Close window?"@,
        UnsavedEditsAction::QuitApp => "Quit GitComet?"@,
    }
}

pub open spec fn unsaved_discard_label(a: UnsavedEditsAction) -> Seq<char> {
    match a {
        UnsavedEditsAction::CloseWindow => "Discard and close"@,
        UnsavedEditsAction::QuitApp => "Discard and quit"@,
    }
}

pub open spec fn unsaved_text(files: nat) -> Seq<char> {
    (if files == 1 {
        "1 edited file has not been saved."@
    } else {
        decimal(files) + " edited files have not been saved."@
    }) + " Save them, or discard the changes."@
}

pub open spec fn unsaved_more(files: nat) -> Option<Seq<char>> {
    if files > UNSAVED_FILES_SHOWN {
        Some("…and "@ + decimal((files - UNSAVED_FILES_SHOWN) as nat) + " more"@)
    } else {
        None
    }
}

pub fn unsaved_edits_dialog(action: UnsavedEditsAction, files: &Vec<String>) -> (res:
    UnsavedEditsDialog)
    ensures
        res.title@ == unsaved_title(action),
        res.discard_label@ == unsaved_discard_label(action),
        res.text@ == unsaved_text(files.len() as nat),
        strs_view(res.shown_files@) == crate::find::first_n(
            strs_view(files@),
            UNSAVED_FILES_SHOWN as int,
        ),
        match res.more {
            Some(m) => unsaved_more(files.len() as nat) == Some(m@),
            None => unsaved_more(files.len() as nat) is None,
        },
{
    let (title, discard_label): (&str, &str) = match action {
        UnsavedEditsAction::CloseWindow => ("Close window?", "Discard and close"),
        UnsavedEditsAction::QuitApp => ("Quit GitComet?", "Discard and quit"),
    };
    let n = files.len();
    let mut text: Vec<char> = Vec::new();
    if n == 1 {
        push_str(&mut text, "1 edited file has not been saved.");
    } else {
        text = decimal_string(n as u64);
        push_str(&mut text, " edited files have not been saved.");
    }
    push_str(&mut text, " Save them, or discard the changes.");
    let ghost fv = strs_view(files@);
    let shown_count: usize = if n < UNSAVED_FILES_SHOWN {
        n
    } else {
        UNSAVED_FILES_SHOWN
    };
    let mut shown_files: Vec<String> = Vec::new();
    let mut i: usize = 0;
    while i < shown_count
        invariant
            i <= shown_count <= files.len(),
            fv == strs_view(files@),
            shown_files@ == files@.take(i as int),
        decreases shown_count - i,
    {
        shown_files.push(files[i].clone());
        assert(shown_files@ =~= files@.take(i + 1));
        i += 1;
    }
    assert(strs_view(shown_files@) =~= fv.take(shown_count as int));
    proof {
        if UNSAVED_FILES_SHOWN >= fv.len() {
            assert(fv.take(shown_count as int) =~= fv);
        }
    }
    let more = if n > UNSAVED_FILES_SHOWN {
        let mut m: Vec<char> = Vec::new();
        push_str(&mut m, "…and ");
        let digits = decimal_string((n - UNSAVED_FILES_SHOWN) as u64);
        push_all(&mut m, &digits);
        push_str(&mut m, " more");
        Some(string_of(&m))
    } else {
        None
    };
    UnsavedEditsDialog {
        title: title.to_owned(),
        discard_label: discard_label.to_owned(),
        text: string_of(&text),
        shown_files,
        more,
    }
}

/// A squash the selection still allows: the oldest and newest selected
/// commits, the current HEAD, and how many commits become one.
#[derive(Clone, Debug, PartialEq, Eq)]
pub struct SquashPlan {
    pub oldest: String,
    pub head: String,
    pub actual_head: String,
    pub commit_count: usize,
}

/// What the squash prompt shows.
pub enum SquashPromptBody {
    /// The selection changed while the prompt was open.
    NotSquashable,
    Plan {
        title: String,
        summary: String,
        /// Shown under the message input while the combined message is not
        /// there.
        message_hint: Option<String>,
        submit_enabled: bool,
    },
}

pub enum SquashPromptBodyView {
    NotSquashable,
    Plan { title: Seq<char>, summary: Seq<char>, message_hint: Option<Seq<char>>, submit_enabled: bool },
}

impl View for SquashPromptBody {
    type V = SquashPromptBodyView;

    open spec fn view(&self) -> SquashPromptBodyView {
        match self {
            SquashPromptBody::NotSquashable => SquashPromptBodyView::NotSquashable,
            SquashPromptBody::Plan { title, summary, message_hint, submit_enabled } =>
                SquashPromptBodyView::Plan {
                title: title@,
                summary: summary@,
                message_hint: match message_hint {
                    Some(h) => Some(h@),
                    None => None,
                },
                submit_enabled: *submit_enabled,
            },
        }
    }
}

/// `<oldest>..<head> → one commit ...`, saying whether commits above the
/// squashed range get rewritten.
pub open spec fn squash_summary(p: SquashPlan) -> Seq<char> {
    short_id(p.oldest@) + ".."@ + short_id(p.head@) + (if p.head@ == p.actual_head@ {
        " → one commit on HEAD"@
    } else {
        " → one commit · rewriting commits above"@
    })
}

pub open spec fn squash_message_hint<T>(preview: Loadable<T>) -> Option<Seq<char>> {
    match preview {
        Loadable::Ready(_) => None,
        Loadable::Error(e) => Some("Could not build the combined message: "@ + e@),
        _ => Some("Building combined message…"@),
    }
}

pub open spec fn squash_prompt_spec<T>(
    plan: Option<SquashPlan>,
    preview: Loadable<T>,
    message: Seq<char>,
) -> SquashPromptBodyView {
    match plan {
        None => SquashPromptBodyView::NotSquashable,
        Some(p) => SquashPromptBodyView::Plan {
            title: "Squash "@ + decimal(p.commit_count as nat) + " commits"@,
            summary: squash_summary(p),
            message_hint: squash_message_hint(preview),
            submit_enabled: !is_blank(message),
        },
    }
}

/// The squash prompt for the current plan (none when the selection is no
/// longer squashable), the combined message being built, and the typed
/// commit message: Squash stays disabled while the message is blank.
pub fn squash_prompt<T>(plan: &Option<SquashPlan>, preview: &Loadable<T>, message: &str) -> (res:
    SquashPromptBody)
    ensures
        res@ == squash_prompt_spec(*plan, *preview, message@),
{
    match plan {
        None => SquashPromptBody::NotSquashable,
        Some(p) => {
            let mut title: Vec<char> = Vec::new();
            push_str(&mut title, "Squash ");
            let digits = decimal_string(p.commit_count as u64);
            push_all(&mut title, &digits);
            push_str(&mut title, " commits");
            let mut summary: Vec<char> = Vec::new();
            let oldest = short_id_string(p.oldest.as_str());
            push_str(&mut summary, oldest.as_str());
            push_str(&mut summary, "..");
            let head = short_id_string(p.head.as_str());
            push_str(&mut summary, head.as_str());
            if crate::text::str_eq(p.head.as_str(), p.actual_head.as_str()) {
                push_str(&mut summary, " → one commit on HEAD");
            } else {
                push_str(&mut summary, " → one commit · rewriting commits above");
            }
            let message_hint = match preview {
                Loadable::Ready(_) => None,
                Loadable::Error(e) => {
                    let mut h: Vec<char> = Vec::new();
                    push_str(&mut h, "Could not build the combined message: ");
                    push_str(&mut h, e.as_str());
                    Some(string_of(&h))
                },
                _ => Some("Building combined message…".to_owned()),
            };
            let res = SquashPromptBody::Plan {
                title: string_of(&title),
                summary: string_of(&summary),
                message_hint,
                submit_enabled: !is_blank_str(message),
            };
            assert(summary@ =~= squash_summary(*p));
            res
        },
    }
}

} // verus!
