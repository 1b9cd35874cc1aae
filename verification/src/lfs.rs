//! LFS-tracked paths and the pointer placeholder that `scan` reports.

use vstd::prelude::*;

use crate::compare::{FailedReason, LfsPointer};
use crate::gitattributes::AttributeMatch;

verus! {

/// Whether the `.gitattributes` class of a path is the `filter=lfs` marker.
pub fn is_lfs(class: &AttributeMatch) -> (r: bool)
    ensures
        r == (*class is LfsPointer),
{
    match class {
        AttributeMatch::LfsPointer => true,
        _ => false,
    }
}

/// `scan` fetches no blob, so an LFS failure carries the placeholder
/// `{oid: "?", size: 0}`; every other reason carries none.
pub fn placeholder_pointer_for(reason: Option<FailedReason>) -> (r: Option<LfsPointer>)
    ensures
        reason == Some(FailedReason::LfsPointer) ==> (r matches Some(p) && p.oid@ == "?"@ && p.size
            == 0),
        reason != Some(FailedReason::LfsPointer) ==> r is None,
{
    match reason {
        Some(FailedReason::LfsPointer) => Some(LfsPointer { oid: "?".to_owned(), size: 0 }),
        _ => None,
    }
}

} // verus!
