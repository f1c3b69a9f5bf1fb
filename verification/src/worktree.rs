//! Where the worktree of a session lies.

use crate::paths::{join, join_path};
use vstd::prelude::*;
use vstd::string::StringSliceAdditionalSpecFns;
use vstd::utf8::{encode_utf8, is_char_boundary};

verus! {

#[derive(Debug)]
pub enum WorktreeError {
    DirtyRepository,
    UnmergedCommits { branch: String },
    GitCommandFailed { command: String, stderr: String },
    WorktreeExists { path: String },
    WorktreeNotFound { path: String },
    InvalidSessionId { session_id: String },
    /// What the operating system said when it refused an operation.
    Io(String),
    /// What the decoder said of output that is no UTF-8.
    Utf8(String),
}

/// How many bytes of a session id name its worktree: the first eight, or
/// all where there are fewer.
pub open spec fn short_len(session_id: &str) -> int {
    if session_id.len() < 8 {
        session_id.len() as int
    } else {
        8
    }
}

/// Whether `path` is the worktree of the session `session_id` in the
/// repository `repo_path`: the directory `.amp-worktrees` of the repository,
/// and in it the directory named by the first bytes of the session id.
pub open spec fn is_worktree_path(path: Seq<char>, repo_path: Seq<char>, session_id: &str)
    -> bool {
    exists|short: Seq<char>| #[trigger]
        encode_utf8(short) == session_id.spec_bytes().subrange(0, short_len(session_id))
            && path == join_path(join_path(repo_path, ".amp-worktrees"@), short)
}

/// The path where the worktree of a session would be created. The first
/// eight bytes of the session id must end with a character.
pub fn path_for(repo_path: &str, session_id: &str) -> (path: String)
    requires
        is_char_boundary(session_id.spec_bytes(), short_len(session_id)),
    ensures
        is_worktree_path(path@, repo_path@, session_id),
{
    let n: usize = if session_id.len() < 8 {
        session_id.len()
    } else {
        8
    };
    let (short, _) = session_id.split_at(n);
    let base = join(repo_path, ".amp-worktrees");
    let path = join(base.as_str(), short);
    proof {
        assert(encode_utf8(short@) == session_id.spec_bytes().subrange(
            0,
            short_len(session_id),
        ));
    }
    path
}

} // verus!
