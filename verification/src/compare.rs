//! The 4-state classification of a path and its `presence` /
//! `diff_meaningful` facts.

use vstd::prelude::*;

use crate::text::{chars_eq, chars_of};
use crate::timestamp::{Timestamp, ts_before};

verus! {

/// Outcome of comparing one path.
#[derive(Debug, Clone, Copy, PartialEq, Eq, Structural)]
pub enum Status {
    Identical,
    LocalOnlyChanged,
    RemoteOnlyChanged,
    Drift,
    Failed,
}

/// Which sides hold the path.
#[derive(Debug, Clone, Copy, PartialEq, Eq, Structural)]
pub enum Presence {
    LocalOnly,
    Both,
    RemoteOnly,
}

/// Why a path was promoted to [`Status::Failed`].
#[derive(Debug, Clone, Copy, PartialEq, Eq, Structural)]
pub enum FailedReason {
    HashIo,
    CaseCollision,
    Submodule,
    Symlink,
    LongPath,
    LfsPointer,
    Encoding,
    NfdCollision,
    GitattributesUnsupported,
    FileTooLarge,
    MemoryExceeded,
}

/// LFS pointer companion of a failed entry whose reason is
/// [`FailedReason::LfsPointer`].
#[derive(Debug, Clone, PartialEq, Eq)]
pub struct LfsPointer {
    pub oid: String,
    pub size: u64,
}

/// One row of the scan report.
#[derive(Debug, Clone)]
pub struct FileEntry {
    pub path: String,
    pub status: Status,
    pub presence: Presence,
    pub local_sha: Option<String>,
    pub remote_sha: Option<String>,
    pub local_mtime: Option<Timestamp>,
    pub remote_last_commit_at: Option<Timestamp>,
    pub is_binary: bool,
    pub mode: String,
    pub diff_meaningful: Option<bool>,
    pub failed_reason: Option<FailedReason>,
    pub lfs_pointer: Option<LfsPointer>,
    pub size_bytes: Option<u64>,
}

/// The characters of an optional string.
pub open spec fn opt_view(o: Option<&str>) -> Option<Seq<char>> {
    match o {
        Some(s) => Some(s@),
        None => None,
    }
}

/// The characters of an optional owned string.
pub open spec fn opt_string_view(o: Option<String>) -> Option<Seq<char>> {
    match o {
        Some(s) => Some(s@),
        None => None,
    }
}

/// Status of a path from its two SHAs, the local mtime, the remote
/// last-commit time and the normalize-equal hint. Equal SHAs, or differing
/// SHAs that normalize to the same content, are identical; a one-sided path
/// changed on its side; otherwise the newer timestamp names the side that
/// changed, and equal or unknown times mean drift.
pub open spec fn spec_classify(
    local_sha: Option<Seq<char>>,
    remote_sha: Option<Seq<char>>,
    local_mtime: Option<Timestamp>,
    remote_last_commit_at: Option<Timestamp>,
    normalize_equal: Option<bool>,
) -> Status {
    match (local_sha, remote_sha) {
        (Some(a), Some(b)) => if a == b || normalize_equal == Some(true) {
            Status::Identical
        } else {
            match (local_mtime, remote_last_commit_at) {
                (Some(l), Some(r)) => if ts_before(r, l) {
                    Status::LocalOnlyChanged
                } else if ts_before(l, r) {
                    Status::RemoteOnlyChanged
                } else {
                    Status::Drift
                },
                _ => Status::Drift,
            }
        },
        (Some(_), None) => Status::LocalOnlyChanged,
        _ => Status::RemoteOnlyChanged,
    }
}

/// Whether two optional strings are both present and equal.
fn both_equal(a: Option<&str>, b: Option<&str>) -> (r: bool)
    ensures
        r == (a is Some && b is Some && a->0@ == b->0@),
{
    match (a, b) {
        (Some(x), Some(y)) => chars_eq(&chars_of(x), &chars_of(y)),
        _ => false,
    }
}

/// Classify a single path into one of the 4 states (see [`spec_classify`]).
/// At least one side must hold the path.
pub fn classify(
    local_sha: Option<&str>,
    remote_sha: Option<&str>,
    local_mtime: Option<Timestamp>,
    remote_last_commit_at: Option<Timestamp>,
    normalize_equal: Option<bool>,
) -> (s: Status)
    requires
        local_sha is Some || remote_sha is Some,
    ensures
        s == spec_classify(
            opt_view(local_sha),
            opt_view(remote_sha),
            local_mtime,
            remote_last_commit_at,
            normalize_equal,
        ),
        s != Status::Failed,
{
    match (local_sha, remote_sha) {
        (Some(_), Some(_)) => {
            if both_equal(local_sha, remote_sha) || normalize_equal == Some(true) {
                Status::Identical
            } else {
                match (local_mtime, remote_last_commit_at) {
                    (Some(l), Some(r)) => {
                        if r.before(&l) {
                            Status::LocalOnlyChanged
                        } else if l.before(&r) {
                            Status::RemoteOnlyChanged
                        } else {
                            Status::Drift
                        }
                    },
                    _ => Status::Drift,
                }
            }
        },
        (Some(_), None) => Status::LocalOnlyChanged,
        _ => Status::RemoteOnlyChanged,
    }
}

/// `(presence, diff_meaningful)` of a hashed path: equal SHAs carry no
/// meaningful diff; differing SHAs carry one exactly when they do not
/// normalize to the same content (unknown when the hint is absent); a
/// one-sided path has no `diff_meaningful`.
pub open spec fn spec_compare(
    local_sha: Option<Seq<char>>,
    remote_sha: Option<Seq<char>>,
    normalize_equal: Option<bool>,
) -> (Presence, Option<bool>) {
    match (local_sha, remote_sha) {
        (Some(l), Some(r)) => (
            Presence::Both,
            if l == r {
                Some(false)
            } else {
                match normalize_equal {
                    Some(eq) => Some(!eq),
                    None => None,
                }
            },
        ),
        (Some(_), None) => (Presence::LocalOnly, None),
        _ => (Presence::RemoteOnly, None),
    }
}

/// Determine `(Presence, diff_meaningful)` (see [`spec_compare`]). At least
/// one side must hold the path.
pub fn compare(local_sha: Option<&str>, remote_sha: Option<&str>, normalize_equal: Option<bool>) -> (r: (
    Presence,
    Option<bool>,
))
    requires
        local_sha is Some || remote_sha is Some,
    ensures
        r == spec_compare(opt_view(local_sha), opt_view(remote_sha), normalize_equal),
{
    match (local_sha, remote_sha) {
        (Some(_), Some(_)) => {
            let dm = if both_equal(local_sha, remote_sha) {
                Some(false)
            } else {
                match normalize_equal {
                    Some(eq) => Some(!eq),
                    None => None,
                }
            };
            (Presence::Both, dm)
        },
        (Some(_), None) => (Presence::LocalOnly, None),
        _ => (Presence::RemoteOnly, None),
    }
}

} // verus!
