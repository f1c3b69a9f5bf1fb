//! Named lists of toolbox directories.

use vstd::prelude::*;

verus! {

/// A stored toolbox profile: a name for an ordered list of toolbox
/// directories.
#[derive(Debug, Clone)]
pub struct ToolboxProfile {
    pub id: i64,
    pub name: String,
    pub created_at: String,
    /// The toolbox directories, in the order in which they are merged.
    pub paths: Vec<String>,
}

/// What is needed to store a new profile.
#[derive(Debug)]
pub struct CreateToolboxProfileRequest {
    pub name: String,
    pub paths: Vec<String>,
}

/// A change to a stored profile: the fields that are `Some` are replaced.
#[derive(Debug)]
pub struct UpdateToolboxProfileRequest {
    pub id: i64,
    pub name: Option<String>,
    pub paths: Option<Vec<String>>,
}

} // verus!
