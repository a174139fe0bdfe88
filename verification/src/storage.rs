use vstd::prelude::*;

use crate::rafterror::RaftError;
use crate::type_def::{LogIndex, TermId};

verus! {

/// Durable storage behind a Raft log, implemented by the users of the library.
pub trait Storage: Send + Sync {
    fn append(&self, entries: Vec<Entry>) -> Result<(), RaftError>;

    fn last_term(&self) -> TermId;

    fn last_index(&self) -> LogIndex;
}

/// What an entry holds: its term, its index and its payload.
pub struct EntryView {
    pub term: TermId,
    pub index: LogIndex,
    pub data: Seq<u8>,
}

/// One entry of the replicated log.
pub struct Entry {
    term: TermId,
    index: LogIndex,
    data: Vec<u8>,
}

impl View for Entry {
    type V = EntryView;

    open spec fn view(&self) -> EntryView {
        EntryView { term: self.spec_term(), index: self.spec_index(), data: self.spec_data() }
    }
}

impl Clone for Entry {
    fn clone(&self) -> (e: Entry)
        ensures
            e@ == self@,
    {
        let data = self.data.clone();
        proof {
            assert(data@ =~= self.data@);
        }
        Entry { term: self.term, index: self.index, data }
    }
}

impl Entry {
    pub closed spec fn spec_term(&self) -> TermId {
        self.term
    }

    pub closed spec fn spec_index(&self) -> LogIndex {
        self.index
    }

    pub closed spec fn spec_data(&self) -> Seq<u8> {
        self.data@
    }

    pub fn term(&self) -> (t: TermId)
        ensures
            t == self@.term,
    {
        self.term
    }

    pub fn index(&self) -> (i: LogIndex)
        ensures
            i == self@.index,
    {
        self.index
    }

    /// The payload of the entry.
    pub fn data(&self) -> (d: &Vec<u8>)
        ensures
            d@ == self@.data,
    {
        &self.data
    }

    pub fn new(term: TermId, index: LogIndex, data: Vec<u8>) -> (e: Entry)
        ensures
            e@ == (EntryView { term, index, data: data@ }),
    {
        Entry { term, index, data }
    }
}

} // verus!
