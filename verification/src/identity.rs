//! The running controller's identity: which Compute this is, established
//! once when the process starts.

use vstd::prelude::*;

verus! {

/// Which Compute binary is running.
#[derive(Debug, Clone, PartialEq, Eq)]
pub struct ControllerIdentity {
    pub version: String,
    /// The source revision it was built from; `-dirty` when the tree had
    /// uncommitted changes.
    pub git_commit: String,
    /// SHA-256 of the executable itself: the build's identity.
    pub build_id: String,
    pub build_profile: String,
    pub platform: String,
    pub executable: String,
}

} // verus!
