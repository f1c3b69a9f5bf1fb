//! The errors of sessions, of git and of the store.

use vstd::prelude::*;
use vstd::string::StringExecFns;

verus! {

#[derive(Debug)]
pub enum SessionError {
    NotFound { id: String },
    AlreadyExists { id: String },
    InvalidStatus { status: String },
    Timeout { id: String },
    CreationFailed { reason: String },
}

#[derive(Debug)]
pub enum GitError {
    BranchNotFound { branch: String },
    BranchExists { branch: String },
    WorktreeNotFound { path: String },
    WorktreeExists { path: String },
    RepositoryNotFound { path: String },
    OperationFailed { operation: String, reason: String },
    DirtyWorkingDirectory { reason: String },
    /// What the operating system said when it refused an operation.
    Io(String),
}

#[derive(Debug)]
pub enum PersistenceError {
    Database(String),
    Connection(String),
    Migration(String),
    RecordNotFound { table: String, id: String },
    ConstraintViolation { constraint: String },
    SerializationError(String),
    DeserializationError(String),
    NotImplemented(String),
}

fn labelled(label: &str, detail: &str) -> (text: String)
    ensures
        text@ == label@ + detail@,
{
    let mut text = String::from_str(label);
    text.append(detail);
    text
}

impl SessionError {
    /// The error in words.
    pub open spec fn text(&self) -> Seq<char> {
        match self {
            SessionError::NotFound { id } => "Session not found: "@ + id@,
            SessionError::AlreadyExists { id } => "Session already exists: "@ + id@,
            SessionError::InvalidStatus { status } => "Invalid session status: "@ + status@,
            SessionError::Timeout { id } => "Session timeout: "@ + id@,
            SessionError::CreationFailed { reason } => "Session creation failed: "@ + reason@,
        }
    }

    /// The error in words.
    pub fn to_string(&self) -> (text: String)
        ensures
            text@ == self.text(),
    {
        match self {
            SessionError::NotFound { id } => labelled("Session not found: ", id.as_str()),
            SessionError::AlreadyExists { id } => labelled(
                "Session already exists: ",
                id.as_str(),
            ),
            SessionError::InvalidStatus { status } => labelled(
                "Invalid session status: ",
                status.as_str(),
            ),
            SessionError::Timeout { id } => labelled("Session timeout: ", id.as_str()),
            SessionError::CreationFailed { reason } => labelled(
                "Session creation failed: ",
                reason.as_str(),
            ),
        }
    }
}

impl GitError {
    /// The error in words.
    pub open spec fn text(&self) -> Seq<char> {
        match self {
            GitError::BranchNotFound { branch } => "Branch not found: "@ + branch@,
            GitError::BranchExists { branch } => "Branch already exists: "@ + branch@,
            GitError::WorktreeNotFound { path } => "Worktree not found at path: "@ + path@,
            GitError::WorktreeExists { path } => "Worktree already exists at path: "@ + path@,
            GitError::RepositoryNotFound { path } => "Git repository not found at: "@ + path@,
            GitError::OperationFailed { operation, reason } => "Git operation failed: "@
                + operation@ + " - "@ + reason@,
            GitError::DirtyWorkingDirectory { reason } => "Working directory not clean: "@
                + reason@,
            GitError::Io(message) => "IO error: "@ + message@,
        }
    }

    /// The error in words.
    pub fn to_string(&self) -> (text: String)
        ensures
            text@ == self.text(),
    {
        match self {
            GitError::BranchNotFound { branch } => labelled("Branch not found: ", branch.as_str()),
            GitError::BranchExists { branch } => labelled(
                "Branch already exists: ",
                branch.as_str(),
            ),
            GitError::WorktreeNotFound { path } => labelled(
                "Worktree not found at path: ",
                path.as_str(),
            ),
            GitError::WorktreeExists { path } => labelled(
                "Worktree already exists at path: ",
                path.as_str(),
            ),
            GitError::RepositoryNotFound { path } => labelled(
                "Git repository not found at: ",
                path.as_str(),
            ),
            GitError::OperationFailed { operation, reason } => {
                let mut text = labelled("Git operation failed: ", operation.as_str());
                text.append(" - ");
                text.append(reason.as_str());
                text
            },
            GitError::DirtyWorkingDirectory { reason } => labelled(
                "Working directory not clean: ",
                reason.as_str(),
            ),
            GitError::Io(message) => labelled("IO error: ", message.as_str()),
        }
    }
}

impl PersistenceError {
    /// The error in words.
    pub open spec fn text(&self) -> Seq<char> {
        match self {
            PersistenceError::Database(message) => "Database error: "@ + message@,
            PersistenceError::Connection(message) => "Connection error: "@ + message@,
            PersistenceError::Migration(message) => "Migration error: "@ + message@,
            PersistenceError::RecordNotFound { table, id } => "Record not found: "@ + table@
                + " with id "@ + id@,
            PersistenceError::ConstraintViolation { constraint } => "Constraint violation: "@
                + constraint@,
            PersistenceError::SerializationError(message) => "Serialization error: "@ + message@,
            PersistenceError::DeserializationError(message) => "Deserialization error: "@
                + message@,
            PersistenceError::NotImplemented(message) => "Not implemented: "@ + message@,
        }
    }

    /// The error in words.
    pub fn to_string(&self) -> (text: String)
        ensures
            text@ == self.text(),
    {
        match self {
            PersistenceError::Database(message) => labelled("Database error: ", message.as_str()),
            PersistenceError::Connection(message) => labelled(
                "Connection error: ",
                message.as_str(),
            ),
            PersistenceError::Migration(message) => labelled(
                "Migration error: ",
                message.as_str(),
            ),
            PersistenceError::RecordNotFound { table, id } => {
                let mut text = labelled("Record not found: ", table.as_str());
                text.append(" with id ");
                text.append(id.as_str());
                text
            },
            PersistenceError::ConstraintViolation { constraint } => labelled(
                "Constraint violation: ",
                constraint.as_str(),
            ),
            PersistenceError::SerializationError(message) => labelled(
                "Serialization error: ",
                message.as_str(),
            ),
            PersistenceError::DeserializationError(message) => labelled(
                "Deserialization error: ",
                message.as_str(),
            ),
            PersistenceError::NotImplemented(message) => labelled(
                "Not implemented: ",
                message.as_str(),
            ),
        }
    }
}

} // verus!
