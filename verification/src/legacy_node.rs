//! Compatibility with the records of the Node.js implementation.

use crate::domain::{BatchStatus, SessionStatus};
use vstd::prelude::*;
use vstd::string::StringExecFns;

verus! {

pub struct LegacyNodeCompat {
    pub enabled: bool,
}

impl LegacyNodeCompat {
    pub fn new() -> (compat: Self)
        ensures
            compat.enabled,
    {
        LegacyNodeCompat { enabled: true }
    }

    pub fn is_enabled(&self) -> (enabled: bool)
        ensures
            enabled == self.enabled,
    {
        self.enabled
    }
}

impl Default for LegacyNodeCompat {
    fn default() -> (compat: Self)
        ensures
            compat.enabled,
    {
        LegacyNodeCompat::new()
    }
}

/// A session as the Node.js implementation stored it.
#[derive(Debug, Clone)]
pub struct LegacySession {
    pub id: String,
    pub name: String,
    pub prompt: String,
    pub repo_root: String,
    pub base_branch: String,
    pub branch_name: String,
    pub worktree_path: String,
    pub status: String,
    pub created_at: String,
    pub last_run: Option<String>,
    pub node_version: Option<String>,
    pub npm_version: Option<String>,
}

/// A batch as the Node.js implementation stored it.
#[derive(Debug, Clone)]
pub struct LegacyBatch {
    pub id: String,
    pub name: String,
    pub config_path: String,
    pub status: String,
    pub sessions: Vec<String>,
    pub created_at: String,
    pub started_at: Option<String>,
    pub completed_at: Option<String>,
    pub total_sessions: i32,
    pub completed_sessions: i32,
    pub failed_sessions: i32,
}

/// The status that a stored session status names: `running` and `completed`
/// their own, and any other text, `idle` among them, idle.
pub open spec fn session_status_named(text: Seq<char>) -> SessionStatus {
    if text == "running"@ {
        SessionStatus::Running
    } else if text == "completed"@ {
        SessionStatus::Completed
    } else {
        SessionStatus::Idle
    }
}

/// Reads a stored session status.
pub fn session_status_from_legacy(text: &str) -> (status: SessionStatus)
    ensures
        status == session_status_named(text@),
{
    if text.eq("running") {
        SessionStatus::Running
    } else if text.eq("completed") {
        SessionStatus::Completed
    } else {
        SessionStatus::Idle
    }
}

/// The text that stores a session status: `running`, `completed`, `error: `
/// and the reason for an error, and `idle` for any other.
pub open spec fn legacy_session_status(status: SessionStatus) -> Seq<char> {
    match status {
        SessionStatus::Running => "running"@,
        SessionStatus::Completed => "completed"@,
        SessionStatus::Error(reason) => "error: "@ + reason@,
        _ => "idle"@,
    }
}

/// Writes a session status as the Node.js implementation stored it.
pub fn session_status_to_legacy(status: &SessionStatus) -> (text: String)
    ensures
        text@ == legacy_session_status(*status),
{
    match status {
        SessionStatus::Running => String::from_str("running"),
        SessionStatus::Completed => String::from_str("completed"),
        SessionStatus::Error(reason) => {
            let mut text = String::from_str("error: ");
            text.append(reason.as_str());
            text
        },
        _ => String::from_str("idle"),
    }
}

/// The status that a stored batch status names: `running`, `completed` and
/// `failed` their own, and any other text, `pending` among them, pending.
pub open spec fn batch_status_named(text: Seq<char>) -> BatchStatus {
    if text == "running"@ {
        BatchStatus::Running
    } else if text == "completed"@ {
        BatchStatus::Completed
    } else if text == "failed"@ {
        BatchStatus::Failed
    } else {
        BatchStatus::Pending
    }
}

/// Reads a stored batch status.
pub fn batch_status_from_legacy(text: &str) -> (status: BatchStatus)
    ensures
        status == batch_status_named(text@),
{
    if text.eq("running") {
        BatchStatus::Running
    } else if text.eq("completed") {
        BatchStatus::Completed
    } else if text.eq("failed") {
        BatchStatus::Failed
    } else {
        BatchStatus::Pending
    }
}

} // verus!
