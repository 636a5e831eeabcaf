//! Where repository-load trace lines go, decided from the two trace
//! settings.
use vstd::prelude::*;
use crate::text::str_eq;
use crate::message::{Msg, MsgView};
use crate::model::{RepoExternalChange, RepoId};

verus! {

/// The destination of trace lines.
#[derive(Clone, Copy, Debug, PartialEq, Eq, Structural)]
pub enum TraceTargetKind {
    Disabled,
    Stderr,
    File,
}

/// The stderr setting asks for tracing: it is set, not empty and not `0`.
pub open spec fn stderr_requested(value: Option<Seq<char>>) -> bool {
    value matches Some(v) && v.len() > 0 && v != "0"@
}

/// The trace file when the file setting names one and it could be opened,
/// else stderr when that setting asks for it, else no tracing.
pub open spec fn trace_target_spec(
    file_path: Option<Seq<char>>,
    file_opened: bool,
    stderr_value: Option<Seq<char>>,
) -> TraceTargetKind {
    if (file_path matches Some(p) && p.len() > 0) && file_opened {
        TraceTargetKind::File
    } else if stderr_requested(stderr_value) {
        TraceTargetKind::Stderr
    } else {
        TraceTargetKind::Disabled
    }
}

/// `file_path` and `stderr_value` are the two settings; `file_opened` says
/// whether the named file could be opened for appending.
pub fn trace_target(file_path: Option<&str>, file_opened: bool, stderr_value: Option<&str>) -> (res:
    TraceTargetKind)
    ensures
        res == trace_target_spec(
            match file_path {
                Some(p) => Some(p@),
                None => None,
            },
            file_opened,
            match stderr_value {
                Some(v) => Some(v@),
                None => None,
            },
        ),
{
    let file_named = match file_path {
        Some(p) => !p.is_empty(),
        None => false,
    };
    if file_named && file_opened {
        return TraceTargetKind::File;
    }
    let stderr = match stderr_value {
        Some(v) => !v.is_empty() && !str_eq(v, "0"),
        None => false,
    };
    if stderr {
        TraceTargetKind::Stderr
    } else {
        TraceTargetKind::Disabled
    }
}

/// Whether trace lines are written at all.
pub fn enabled(target: TraceTargetKind) -> (res: bool)
    ensures
        res == !(target is Disabled),
{
    match target {
        TraceTargetKind::Disabled => false,
        _ => true,
    }
}


/// The name a trace line gives a store message: the repository lifecycle
/// messages by name, every other one as `Msg`.
pub open spec fn msg_name_spec(msg: MsgView) -> Seq<char> {
    match msg {
        MsgView::OpenRepo(_) => "OpenRepo"@,
        MsgView::RestoreSession { .. } => "RestoreSession"@,
        MsgView::CloseRepo { .. } => "CloseRepo"@,
        MsgView::CloseRepos { .. } => "CloseRepos"@,
        MsgView::SetActiveRepo { .. } => "SetActiveRepo"@,
        MsgView::ReorderRepoTabs { .. } => "ReorderRepoTabs"@,
        MsgView::ReloadRepo { .. } => "ReloadRepo"@,
        MsgView::RepoActivated { .. } => "RepoActivated"@,
        MsgView::RepoExternallyChanged { .. } => "RepoExternallyChanged"@,
        _ => "Msg"@,
    }
}

pub fn msg_name(msg: &Msg) -> (res: &'static str)
    ensures
        res@ == msg_name_spec(msg@),
{
    match msg {
        Msg::OpenRepo(_) => "OpenRepo",
        Msg::RestoreSession { .. } => "RestoreSession",
        Msg::CloseRepo { .. } => "CloseRepo",
        Msg::CloseRepos { .. } => "CloseRepos",
        Msg::SetActiveRepo { .. } => "SetActiveRepo",
        Msg::ReorderRepoTabs { .. } => "ReorderRepoTabs",
        Msg::ReloadRepo { .. } => "ReloadRepo",
        Msg::RepoActivated { .. } => "RepoActivated",
        Msg::RepoExternallyChanged { .. } => "RepoExternallyChanged",
        _ => "Msg",
    }
}

/// The repository a traced lifecycle message is about; none for the others.
pub open spec fn msg_repo_id_spec(msg: MsgView) -> Option<RepoId> {
    match msg {
        MsgView::CloseRepo { repo_id } => Some(repo_id),
        MsgView::SetActiveRepo { repo_id } => Some(repo_id),
        MsgView::ReorderRepoTabs { repo_id, .. } => Some(repo_id),
        MsgView::ReloadRepo { repo_id } => Some(repo_id),
        MsgView::RepoActivated { repo_id } => Some(repo_id),
        MsgView::RepoExternallyChanged { repo_id, .. } => Some(repo_id),
        _ => None,
    }
}

pub fn msg_repo_id(msg: &Msg) -> (res: Option<RepoId>)
    ensures
        res == msg_repo_id_spec(msg@),
{
    match msg {
        Msg::CloseRepo { repo_id } => Some(*repo_id),
        Msg::SetActiveRepo { repo_id } => Some(*repo_id),
        Msg::ReorderRepoTabs { repo_id, .. } => Some(*repo_id),
        Msg::ReloadRepo { repo_id } => Some(*repo_id),
        Msg::RepoActivated { repo_id } => Some(*repo_id),
        Msg::RepoExternallyChanged { repo_id, .. } => Some(*repo_id),
        _ => None,
    }
}

/// What changed, for a message reporting an outside change to a repository.
pub fn msg_external_change(msg: &Msg) -> (res: Option<RepoExternalChange>)
    ensures
        res == match msg@ {
            MsgView::RepoExternallyChanged { change, .. } => Some(change),
            _ => None,
        },
{
    match msg {
        Msg::RepoExternallyChanged { change, .. } => Some(*change),
        _ => None,
    }
}

} // verus!
