//! Failure kinds reported by the engine.

use vstd::prelude::*;

verus! {

/// Why a request could not be served.
#[derive(Clone, Copy, Debug, PartialEq, Eq, Hash, Structural)]
pub enum FsError {
    /// No node has the given inode, or no entry has the given parent and name.
    NotFound,
    /// The inode is already in the node table, or no fresh inode is left.
    DuplicateInode,
    /// The payload cannot be stored.
    InvalidContent,
    /// The request is refused; a bridge reports it as an access error.
    PermissionDenied,
}

impl FsError {
    /// Whether a bridge should report this failure as a missing file rather
    /// than as an access error.
    pub open spec fn spec_is_missing(self) -> bool {
        self == FsError::NotFound
    }

    #[verifier::when_used_as_spec(spec_is_missing)]
    pub fn is_missing(self) -> (b: bool)
        ensures
            b == self.spec_is_missing(),
    {
        match self {
            FsError::NotFound => true,
            FsError::DuplicateInode => false,
            FsError::InvalidContent => false,
            FsError::PermissionDenied => false,
        }
    }
}

} // verus!
