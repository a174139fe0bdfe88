use vstd::prelude::*;

use std::sync::Arc;

use crate::storage::{Entry, Storage};
use crate::type_def::{LogIndex, TermId};

verus! {

/// Whether a log whose last entry has `last_log_index` and `last_log_term` is at
/// least as up to date as one whose last entry has `index` and `term`: its last
/// term is later, or the terms are equal and it is at least as long.
pub open spec fn up_to_date(index: LogIndex, term: TermId, last_log_index: LogIndex, last_log_term: TermId) -> bool {
    last_log_term > term || (last_log_term == term && last_log_index >= index)
}

/// Decides [`up_to_date`]: whether a log ending at `last_log_index` in
/// `last_log_term` is at least as up to date as one ending at `index` in `term`.
pub fn is_at_least_as_up_to_date(
    index: LogIndex,
    term: TermId,
    last_log_index: LogIndex,
    last_log_term: TermId,
) -> (r: bool)
    ensures
        r == up_to_date(index, term, last_log_index, last_log_term),
{
    last_log_term > term || (last_log_term == term && last_log_index >= index)
}

/// Whether a log holding `entries` can be said to end at `index` in `term`:
/// its last entry is there when it has one (with no entry, the storage behind
/// it decides).
pub open spec fn ends_at(entries: Seq<Entry>, index: LogIndex, term: TermId) -> bool {
    entries.len() > 0 ==> index == entries.last()@.index && term == entries.last()@.term
}

/// The entries a replica holds beyond what its storage has made durable.
pub struct RaftLog<S: Storage> {
    entries: Vec<Entry>,
    storage: Arc<S>,
}

impl<S: Storage> RaftLog<S> {
    /// The entries the log holds in memory, oldest first.
    pub closed spec fn spec_entries(&self) -> Seq<Entry> {
        self.entries@
    }

    /// Moves all of `entries` to the end of the log, leaving `entries` empty.
    pub fn append(&mut self, entries: &mut Vec<Entry>)
        ensures
            final(self).spec_entries() == old(self).spec_entries() + old(entries)@,
            final(entries)@ == Seq::<Entry>::empty(),
    {
        self.entries.append(entries)
    }

    /// Whether a log ending at `last_log_index` in `last_log_term` is at least
    /// as up to date as this one.
    pub fn is_up_to_date(&self, last_log_index: LogIndex, last_log_term: TermId) -> (r: bool)
        ensures
            exists|index: LogIndex, term: TermId|
                ends_at(self.spec_entries(), index, term) && r == up_to_date(
                    index,
                    term,
                    last_log_index,
                    last_log_term,
                ),
    {
        let stored_term = self.storage.last_term();
        let stored_index = self.storage.last_index();
        let r = log_is_up_to_date(
            &self.entries,
            stored_index,
            stored_term,
            last_log_index,
            last_log_term,
        );
        proof {
            let i = if self.entries@.len() > 0 { self.entries@.last()@.index } else { stored_index };
            let t = if self.entries@.len() > 0 { self.entries@.last()@.term } else { stored_term };
            assert(ends_at(self.spec_entries(), i, t) && r == up_to_date(i, t, last_log_index, last_log_term));
        }
        r
    }

    /// The term of the last entry in memory; the storage's last term when
    /// there is none.
    pub fn last_term(&self) -> (t: TermId)
        ensures
            self.spec_entries().len() > 0 ==> t == self.spec_entries().last()@.term,
    {
        let stored = self.storage.last_term();
        last_term_of(&self.entries, stored)
    }

    /// The index of the last entry in memory; the storage's last index when
    /// there is none.
    pub fn last_index(&self) -> (i: LogIndex)
        ensures
            self.spec_entries().len() > 0 ==> i == self.spec_entries().last()@.index,
    {
        let stored = self.storage.last_index();
        last_index_of(&self.entries, stored)
    }
}

/// Whether a log ending at `last_log_index` in `last_log_term` is at least
/// as up to date as a log holding `entries` in front of a storage that
/// reports `stored_index` and `stored_term` as its end: the end of the log is
/// its last entry, or the storage's end when it has none.
pub fn log_is_up_to_date(
    entries: &Vec<Entry>,
    stored_index: LogIndex,
    stored_term: TermId,
    last_log_index: LogIndex,
    last_log_term: TermId,
) -> (r: bool)
    ensures
        entries@.len() > 0 ==> r == (last_log_term > entries@.last()@.term || (last_log_term
            == entries@.last()@.term && last_log_index >= entries@.last()@.index)),
        entries@.len() == 0 ==> r == (last_log_term > stored_term || (last_log_term == stored_term
            && last_log_index >= stored_index)),
{
    let term = last_term_of(entries, stored_term);
    let index = last_index_of(entries, stored_index);
    is_at_least_as_up_to_date(index, term, last_log_index, last_log_term)
}

/// The term of the last of `entries`; `stored`, the term the storage
/// reports, when there is none.
pub fn last_term_of(entries: &Vec<Entry>, stored: TermId) -> (t: TermId)
    ensures
        t == if entries@.len() > 0 {
            entries@.last()@.term
        } else {
            stored
        },
{
    let n = entries.len();
    if n > 0 {
        entries[n - 1].term()
    } else {
        stored
    }
}

/// The index of the last of `entries`; `stored`, the index the storage
/// reports, when there is none.
pub fn last_index_of(entries: &Vec<Entry>, stored: LogIndex) -> (i: LogIndex)
    ensures
        i == if entries@.len() > 0 {
            entries@.last()@.index
        } else {
            stored
        },
{
    let n = entries.len();
    if n > 0 {
        entries[n - 1].index()
    } else {
        stored
    }
}

/// An empty log in front of `storage`.
pub fn new<S: Storage>(storage: Arc<S>) -> (log: RaftLog<S>)
    ensures
        log.spec_entries() == Seq::<Entry>::empty(),
{
    RaftLog { entries: Vec::new(), storage }
}


/// Being at least as up to date orders all log ends: every end is at least as
/// up to date as itself, and of two ends one is at least as up to date as the
/// other.
pub proof fn lemma_up_to_date_total(i1: LogIndex, t1: TermId, i2: LogIndex, t2: TermId)
    ensures
        up_to_date(i1, t1, i1, t1),
        up_to_date(i1, t1, i2, t2) || up_to_date(i2, t2, i1, t1),
{
}

/// A log ending in a later term is more up to date whatever its length, and
/// of two logs ending in the same term the longer one is.
pub proof fn lemma_later_term_wins(index: LogIndex, term: TermId, last_log_index: LogIndex, last_log_term: TermId)
    ensures
        last_log_term > term ==> up_to_date(index, term, last_log_index, last_log_term),
        last_log_term < term ==> !up_to_date(index, term, last_log_index, last_log_term),
        last_log_term == term ==> (up_to_date(index, term, last_log_index, last_log_term) <==> last_log_index >= index),
{
}

/// Being at least as up to date is transitive.
pub proof fn lemma_up_to_date_transitive(
    i1: LogIndex,
    t1: TermId,
    i2: LogIndex,
    t2: TermId,
    i3: LogIndex,
    t3: TermId,
)
    requires
        up_to_date(i1, t1, i2, t2),
        up_to_date(i2, t2, i3, t3),
    ensures
        up_to_date(i1, t1, i3, t3),
{
}

} // verus!
