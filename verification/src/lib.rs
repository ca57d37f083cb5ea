//! Local backup and restore: naming rules for backup artifacts, suffix
//! classification, and the archive (tar + zstd) round trip on in-memory
//! byte streams. File and terminal handling live outside the library.
//!
//! Archives are built and read as whole byte buffers: member contents, the
//! tar stream and the compressed frame are materialized in memory, so an
//! archive's size is bounded by the memory given to the process. Streaming
//! to and from disk is the caller's concern.

use vstd::prelude::*;

pub mod archive;
pub mod classify;
pub mod errors;
pub mod naming;
pub mod orchestrate;

verus! {

/// A path byte holding the separator `/`.
pub const SLASH: u8 = 47;

/// A path byte holding `.`.
pub const DOT: u8 = 46;

/// A path byte holding `\`, which some platforms treat as a separator.
pub const BACKSLASH: u8 = 92;

} // verus!
