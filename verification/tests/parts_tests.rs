use std::sync::Arc;

use raft::atomic::AtomicU64;
use raft::message::{Message, MessageType};
use raft::network::Peer;
use raft::progress::{Progress, ProgressStatus, ProgressTracker, VoteQuorum};
use raft::rafterror::RaftError;
use raft::raftnode::log::{self, is_at_least_as_up_to_date, last_index_of, last_term_of};
use raft::storage::{Entry, Storage};
use raft::type_def::ZERO_TERM_ID;

struct FixedStorage {
    term: u64,
    index: u64,
}

impl Storage for FixedStorage {
    fn append(&self, _entries: Vec<Entry>) -> Result<(), RaftError> {
        Ok(())
    }

    fn last_term(&self) -> u64 {
        self.term
    }

    fn last_index(&self) -> u64 {
        self.index
    }
}

#[test]
fn atomic_counter_reads_back_writes() {
    let mut a = AtomicU64::new(5);
    assert_eq!(a.get(), 5);
    assert_eq!(a.get_and_increment(), 5);
    assert_eq!(a.get(), 6);
    a.set(42);
    assert_eq!(a.get(), 42);
}

#[test]
fn atomic_counter_wraps_around() {
    let mut a = AtomicU64::new(u64::MAX);
    assert_eq!(a.get_and_increment(), u64::MAX);
    assert_eq!(a.get(), 0);
}

#[test]
fn entry_keeps_its_fields() {
    let e = Entry::new(2, 7, vec![9, 8]);
    assert_eq!(e.term(), 2);
    assert_eq!(e.index(), 7);
    assert_eq!(e.data(), &vec![9, 8]);
    let c = e.clone();
    assert_eq!(c.term(), 2);
    assert_eq!(c.index(), 7);
    assert_eq!(c.data(), &vec![9, 8]);
}

#[test]
fn message_keeps_its_fields() {
    let m = Message::new(
        MessageType::AppEntries { entries: vec![Entry::new(1, 1, vec![5])] },
        3,
        vec![1, 2],
        4,
    );
    assert_eq!(m.from(), 3);
    assert_eq!(m.term(), 4);
    assert_eq!(m.to(), &vec![1, 2]);
    match m.message_type() {
        MessageType::AppEntries { entries } => {
            assert_eq!(entries.len(), 1);
            assert_eq!(entries[0].data(), &vec![5]);
        }
        _ => panic!("the kind is kept"),
    }
    let (t, from, to, term) = m.into_parts();
    assert!(matches!(t, MessageType::AppEntries { .. }));
    assert_eq!((from, to, term), (3, vec![1, 2], 4));
}

#[test]
fn peer_keeps_its_fields() {
    let p = Peer::new(4, "host:1", vec!["x:2".to_string()]);
    assert_eq!(p.id(), 4);
    assert_eq!(p.url(), "host:1");
    assert_eq!(p.peers_url(), &vec!["x:2".to_string()]);
    let q = p.clone();
    assert_eq!(q.id(), 4);
    assert_eq!(q.url(), "host:1");
}

#[test]
fn progress_updates_status_only() {
    let mut p = Progress::new(ProgressStatus::Probe);
    assert_eq!(p.status(), ProgressStatus::Probe);
    p.update_status(ProgressStatus::Snapshot);
    assert_eq!(p.status(), ProgressStatus::Snapshot);
}

#[test]
fn tracker_records_and_resets_votes() {
    let mut t = ProgressTracker::new(1);
    assert_eq!(t.progress(&1).map(|p| p.status()), Some(ProgressStatus::Follower));
    assert!(t.progress(&2).is_none());
    t.update_progress(2, &Progress::new(ProgressStatus::Probe));
    t.update_progress(3, &Progress::new(ProgressStatus::Probe));
    assert_eq!(t.progress(&2).map(|p| p.status()), Some(ProgressStatus::Probe));
    let r = t.tally_votes();
    assert_eq!((r.granted(), r.rejected(), r.status()), (0, 0, VoteQuorum::Pending));
    t.record_vote(1, true);
    let r = t.tally_votes();
    assert_eq!((r.granted(), r.rejected(), r.status()), (1, 0, VoteQuorum::Pending));
    t.record_vote(2, true);
    let r = t.tally_votes();
    assert_eq!((r.granted(), r.rejected(), r.status()), (2, 0, VoteQuorum::Won));
    t.reset_vote();
    let r = t.tally_votes();
    assert_eq!((r.granted(), r.rejected(), r.status()), (0, 0, VoteQuorum::Pending));
    t.record_vote(2, false);
    t.record_vote(3, false);
    let r = t.tally_votes();
    assert_eq!((r.granted(), r.rejected(), r.status()), (0, 2, VoteQuorum::Lost));
    let c = t.clone();
    assert_eq!(c.tally_votes().status(), VoteQuorum::Lost);
}

#[test]
fn tally_ignores_votes_of_untracked_nodes() {
    let mut t = ProgressTracker::new(1);
    t.record_vote(8, true);
    t.record_vote(9, false);
    let r = t.tally_votes();
    assert_eq!((r.granted(), r.rejected(), r.status()), (0, 0, VoteQuorum::Pending));
    t.record_vote(1, false);
    assert_eq!(t.tally_votes().status(), VoteQuorum::Lost);
}

#[test]
fn tally_needs_strict_majority() {
    let mut t = ProgressTracker::new(1);
    t.update_progress(2, &Progress::new(ProgressStatus::Probe));
    t.record_vote(1, true);
    t.record_vote(2, false);
    let r = t.tally_votes();
    assert_eq!((r.granted(), r.rejected(), r.status()), (1, 1, VoteQuorum::Lost));
}

#[test]
fn up_to_date_compares_term_then_index() {
    assert!(is_at_least_as_up_to_date(5, 2, 1, 3));
    assert!(is_at_least_as_up_to_date(5, 2, 5, 2));
    assert!(is_at_least_as_up_to_date(5, 2, 6, 2));
    assert!(!is_at_least_as_up_to_date(5, 2, 4, 2));
    assert!(!is_at_least_as_up_to_date(5, 2, 9, 1));
}

#[test]
fn log_reads_storage_until_it_holds_entries() {
    let mut l = log::new(Arc::new(FixedStorage { term: 3, index: 11 }));
    assert_eq!(l.last_term(), 3);
    assert_eq!(l.last_index(), 11);
    assert!(l.is_up_to_date(11, 3));
    assert!(!l.is_up_to_date(10, 3));
    let mut more = vec![Entry::new(4, 12, Vec::new()), Entry::new(5, 13, Vec::new())];
    l.append(&mut more);
    assert!(more.is_empty());
    assert_eq!(l.last_term(), 5);
    assert_eq!(l.last_index(), 13);
    assert!(!l.is_up_to_date(20, 4));
    assert!(l.is_up_to_date(1, 6));
    assert_eq!(ZERO_TERM_ID, 0);
}

#[test]
fn log_end_falls_back_to_storage_answer() {
    let none: Vec<Entry> = Vec::new();
    assert_eq!(last_term_of(&none, 7), 7);
    assert_eq!(last_index_of(&none, 9), 9);
    let some = vec![Entry::new(1, 2, Vec::new()), Entry::new(3, 4, Vec::new())];
    assert_eq!(last_term_of(&some, 7), 3);
    assert_eq!(last_index_of(&some, 9), 4);
}
