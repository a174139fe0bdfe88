use vstd::prelude::*;

verus! {

/// The number of a Raft term.
pub type TermId = u64;

/// The position of an entry in the replicated log.
pub type LogIndex = u64;

/// The term every node starts in.
pub const ZERO_TERM_ID: TermId = 0;

} // verus!
