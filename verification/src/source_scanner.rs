//! The source scanner's data: what a walk over a module's source tree
//! reports for each file. Walking directories needs the file system, so
//! the walk itself lives with the caller.

use vstd::prelude::*;

verus! {

/// A file found by a scan, with its last-modification time. Some file
/// systems report no timestamp.
#[derive(Debug, Clone)]
pub struct PathAndTimestamp {
    pub file_path: String,
    pub timestamp: Option<u64>,
}

} // verus!
