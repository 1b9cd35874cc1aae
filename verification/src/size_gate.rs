//! Size pre-flight on both sides: blobs over 50 MB are not read or fetched.

use vstd::prelude::*;

use crate::compare::FailedReason;

verus! {

/// 100 MB: the GitHub Blobs API hard limit.
pub const FILE_TOO_LARGE_BYTES: u64 = 104857600;

/// 50 MB: the tool's memory safety threshold.
pub const MEMORY_EXCEEDED_BYTES: u64 = 52428800;

/// One blob entry of the remote tree.
#[derive(Debug, Clone)]
pub struct RemoteFile {
    pub path: String,
    pub sha: String,
    pub mode: String,
    /// Size from the Trees response; absent for entries that carry none.
    pub size: Option<u64>,
}

/// The failure a byte count calls for: over 100 MB is `FileTooLarge`,
/// over 50 MB `MemoryExceeded` (strict `>` at both boundaries), else none.
pub open spec fn spec_size_gate(size: u64) -> Option<(FailedReason, u64)> {
    if size > FILE_TOO_LARGE_BYTES {
        Some((FailedReason::FileTooLarge, size))
    } else if size > MEMORY_EXCEEDED_BYTES {
        Some((FailedReason::MemoryExceeded, size))
    } else {
        None
    }
}

/// Pure size-gate check on a local byte count (see [`spec_size_gate`]).
pub fn try_size_gate(size: u64) -> (r: Option<(FailedReason, u64)>)
    ensures
        r == spec_size_gate(size),
{
    if size > FILE_TOO_LARGE_BYTES {
        Some((FailedReason::FileTooLarge, size))
    } else if size > MEMORY_EXCEEDED_BYTES {
        Some((FailedReason::MemoryExceeded, size))
    } else {
        None
    }
}

/// Remote pre-flight: `None` for a missing remote or one without a size,
/// else the size gate of the Trees-reported size.
pub fn try_remote_size_gate(remote: Option<&RemoteFile>) -> (r: Option<(FailedReason, u64)>)
    ensures
        remote is None ==> r is None,
        remote matches Some(f) ==> (f.size is None ==> r is None),
        remote matches Some(f) ==> (f.size matches Some(n) ==> r == spec_size_gate(n)),
{
    match remote {
        None => None,
        Some(f) => match f.size {
            None => None,
            Some(n) => try_size_gate(n),
        },
    }
}

} // verus!
