//! Error kinds reported by backup and restore operations.

use vstd::prelude::*;

verus! {

/// Everything that can go wrong while naming, packing or unpacking a backup.
#[derive(Clone, Copy, Debug, PartialEq, Eq, Structural)]
pub enum BakError {
    /// A source path or output directory does not exist.
    NotFound,
    /// A path is neither a regular file nor a directory, or an artifact's
    /// suffix does not match what is on disk.
    WrongType,
    /// An expected artifact suffix is absent, or a path has no final segment
    /// to attach a suffix to.
    MalformedArtifactName,
    /// Creating, copying or writing failed partway.
    IOFailure,
    /// The compressed stream or the tar structure inside it is damaged.
    ArchiveCorrupt,
}

} // verus!
