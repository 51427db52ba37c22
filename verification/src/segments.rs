//! The four segment identifiers whose contents are preloaded externally.
//!
//! These constants come from the surrounding virtual machine's addressing
//! scheme.  A memory cell in any other segment is implicitly zero until
//! written; a cell in one of these segments may hold externally supplied
//! content before its first read.

use vstd::prelude::*;

verus! {

/// Segment holding the contract code being executed.
pub const SEGMENT_CODE: u64 = 0;

/// Segment holding serialized trie data.
pub const SEGMENT_TRIE_DATA: u64 = 7;

/// Segment holding the linked list of touched accounts.
pub const SEGMENT_ACCOUNTS_LINKED_LIST: u64 = 8;

/// Segment holding the linked list of touched storage slots.
pub const SEGMENT_STORAGE_LINKED_LIST: u64 = 9;

/// Whether a segment is preloaded with external content, so that its cells
/// are exempt from the rule that a first read returns zero.
pub open spec fn is_preinitialized_segment(s: u64) -> bool {
    s == SEGMENT_CODE || s == SEGMENT_TRIE_DATA || s == SEGMENT_ACCOUNTS_LINKED_LIST
        || s == SEGMENT_STORAGE_LINKED_LIST
}

/// Runtime test for membership in the preinitialized segment set.
pub fn preinitialized_segment(s: u64) -> (r: bool)
    ensures
        r == is_preinitialized_segment(s),
{
    s == SEGMENT_CODE || s == SEGMENT_TRIE_DATA || s == SEGMENT_ACCOUNTS_LINKED_LIST
        || s == SEGMENT_STORAGE_LINKED_LIST
}

} // verus!
