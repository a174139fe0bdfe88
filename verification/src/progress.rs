use vstd::prelude::*;

use std::collections::BTreeMap;

use crate::type_def::LogIndex;

verus! {

/// How the leader is replicating its log to one follower.
#[derive(Clone, Copy, Debug, PartialEq, Eq, Structural)]
pub enum ProgressStatus {
    Probe,
    Follower,
    Snapshot,
}

/// The outcome of an election so far.
#[derive(Clone, Copy, Debug, PartialEq, Eq, Structural)]
pub enum VoteQuorum {
    Pending,
    Won,
    Lost,
}

/// The votes counted for an election and what they decide.
#[derive(Clone, Copy, Debug, PartialEq, Eq, Structural)]
pub struct VoteResult {
    granted: u64,
    rejected: u64,
    status: VoteQuorum,
}

impl VoteResult {
    pub closed spec fn spec_granted(&self) -> u64 {
        self.granted
    }

    pub closed spec fn spec_rejected(&self) -> u64 {
        self.rejected
    }

    pub closed spec fn spec_status(&self) -> VoteQuorum {
        self.status
    }

    pub fn status(&self) -> (s: VoteQuorum)
        ensures
            s == self.spec_status(),
    {
        self.status
    }

    /// The number of granted votes that were counted.
    pub fn granted(&self) -> (g: u64)
        ensures
            g == self.spec_granted(),
    {
        self.granted
    }

    /// The number of rejected votes that were counted.
    pub fn rejected(&self) -> (r: u64)
        ensures
            r == self.spec_rejected(),
    {
        self.rejected
    }
}

/// What the leader knows of one follower's log.
#[derive(Clone, Copy, Debug, PartialEq, Eq, Structural)]
pub struct Progress {
    progress_status: ProgressStatus,
    matched: LogIndex,
    next: LogIndex,
}

impl Progress {
    pub closed spec fn spec_status(&self) -> ProgressStatus {
        self.progress_status
    }

    pub closed spec fn spec_matched(&self) -> LogIndex {
        self.matched
    }

    pub closed spec fn spec_next(&self) -> LogIndex {
        self.next
    }

    pub fn status(&self) -> (s: ProgressStatus)
        ensures
            s == self.spec_status(),
    {
        self.progress_status
    }

    pub fn update_status(&mut self, status: ProgressStatus)
        ensures
            final(self).spec_status() == status,
            final(self).spec_matched() == old(self).spec_matched(),
            final(self).spec_next() == old(self).spec_next(),
    {
        self.progress_status = status;
    }

    pub fn new(status: ProgressStatus) -> (p: Progress)
        ensures
            p.spec_status() == status,
            p.spec_matched() == 0,
            p.spec_next() == 0,
    {
        Progress { progress_status: status, matched: 0, next: 0 }
    }
}

/// The tracked nodes whose vote in the current election is `granted`.
pub open spec fn voters_with(progress: Map<u64, Progress>, votes: Map<u64, bool>, granted: bool) -> Set<u64> {
    progress.dom().filter(|id: u64| votes.contains_key(id) && votes[id] == granted)
}

/// The outcome of an election among `voters` nodes of which `granted` voted for
/// the candidate and `rejected` against: won on a strict majority of granted
/// votes, lost once the votes still missing can no longer make one.
pub open spec fn quorum_status(voters: nat, granted: nat, rejected: nat) -> VoteQuorum {
    if 2 * granted > voters {
        VoteQuorum::Won
    } else if 2 * (voters - rejected) > voters {
        VoteQuorum::Pending
    } else {
        VoteQuorum::Lost
    }
}

/// The progress of every tracked node and the votes of the current election.
pub struct ProgressTracker {
    progress: BTreeMap<u64, Progress>,
    votes: BTreeMap<u64, bool>,
}

impl Clone for ProgressTracker {
    fn clone(&self) -> (t: ProgressTracker)
        ensures
            t.progress_map() == self.progress_map(),
            t.votes_map() == self.votes_map(),
    {
        ProgressTracker { progress: self.progress.clone(), votes: self.votes.clone() }
    }
}

impl ProgressTracker {
    /// The progress of each tracked node, by node id.
    pub closed spec fn progress_map(&self) -> Map<u64, Progress> {
        self.progress@
    }

    /// The vote each node has cast in the current election, by node id.
    pub closed spec fn votes_map(&self) -> Map<u64, bool> {
        self.votes@
    }

    /// Counts the votes of the tracked nodes in the current election.
    pub fn tally_votes(&self) -> (r: VoteResult)
        ensures
            r.spec_granted() == voters_with(self.progress_map(), self.votes_map(), true).len(),
            r.spec_rejected() == voters_with(self.progress_map(), self.votes_map(), false).len(),
            r.spec_status() == quorum_status(
                self.progress_map().dom().len(),
                r.spec_granted() as nat,
                r.spec_rejected() as nat,
            ),
    {
        let n = self.progress.len();
        let ghost pm = self.progress@;
        let ghost vm = self.votes@;
        let mut granted: u64 = 0;
        let mut rejected: u64 = 0;
        let ghost mut seen: Set<u64> = Set::empty();
        let ghost mut gs: Set<u64> = Set::empty();
        let ghost mut rs: Set<u64> = Set::empty();
        for id in it: self.progress.keys()
            invariant
                n == pm.dom().len(),
                pm == self.progress@,
                vm == self.votes@,
                it.seq().unref().to_set() == pm.dom(),
                it.seq().unref().no_duplicates(),
                seen.finite(),
                seen.subset_of(pm.dom()),
                seen.len() == it.index(),
                forall|k: u64| #[trigger] seen.contains(k) <==> (exists|j: int| 0 <= j < it.index() && *it.seq()[j] == k),
                gs == seen.filter(|k: u64| vm.contains_key(k) && vm[k] == true),
                rs == seen.filter(|k: u64| vm.contains_key(k) && vm[k] == false),
                gs.finite(),
                rs.finite(),
                granted == gs.len(),
                rejected == rs.len(),
                granted + rejected <= it.index(),
        {
            proof {
                let keys = it.seq().unref();
                assert(keys[it.index() as int] == *id);
                if seen.contains(*id) {
                    let j = choose|j: int| 0 <= j < it.index() && *it.seq()[j] == *id;
                    assert(keys[j] == keys[it.index() as int]);
                }
                assert(keys.to_set().contains(*id));
                gs.lemma_len_filter(|k: u64| vm.contains_key(k) && vm[k] == true);
            }
            match self.votes.get(id) {
                Some(v) => {
                    if *v {
                        granted = granted + 1;
                    } else {
                        rejected = rejected + 1;
                    }
                },
                None => {},
            }
            proof {
                let old_seen = seen;
                seen = seen.insert(*id);
                let gp = |k: u64| vm.contains_key(k) && vm[k] == true;
                let rp = |k: u64| vm.contains_key(k) && vm[k] == false;
                if gp(*id) {
                    assert(seen.filter(gp) =~= gs.insert(*id));
                    gs = gs.insert(*id);
                } else {
                    assert(seen.filter(gp) =~= gs);
                }
                if rp(*id) {
                    assert(seen.filter(rp) =~= rs.insert(*id));
                    rs = rs.insert(*id);
                } else {
                    assert(seen.filter(rp) =~= rs);
                }
            }
        }
        proof {
            vstd::set_lib::lemma_subset_equality(seen, pm.dom());
            assert(gs =~= voters_with(pm, vm, true));
            assert(rs =~= voters_with(pm, vm, false));
        }
        let status = if granted > (n as u64) / 2 {
            VoteQuorum::Won
        } else if (n as u64 - rejected) > (n as u64) / 2 {
            VoteQuorum::Pending
        } else {
            VoteQuorum::Lost
        };
        VoteResult { granted, rejected, status }
    }

    pub fn record_vote(&mut self, from: u64, granted: bool)
        ensures
            final(self).votes_map() == old(self).votes_map().insert(from, granted),
            final(self).progress_map() == old(self).progress_map(),
    {
        self.votes.insert(from, granted);
    }

    pub fn new(node_id: u64) -> (t: Self)
        ensures
            t.progress_map().dom() == set![node_id],
            t.progress_map()[node_id].spec_status() == ProgressStatus::Follower,
            t.progress_map()[node_id].spec_matched() == 0,
            t.progress_map()[node_id].spec_next() == 0,
            t.votes_map() == Map::<u64, bool>::empty(),
    {
        let mut progress = BTreeMap::new();
        progress.insert(node_id, Progress::new(ProgressStatus::Follower));
        ProgressTracker { progress, votes: BTreeMap::new() }
    }

    pub fn progress(&self, id: &u64) -> (p: Option<&Progress>)
        ensures
            match p {
                Some(q) => self.progress_map().contains_key(*id) && *q == self.progress_map()[*id],
                None => !self.progress_map().contains_key(*id),
            },
    {
        self.progress.get(id)
    }

    pub fn reset_vote(&mut self)
        ensures
            final(self).votes_map() == Map::<u64, bool>::empty(),
            final(self).progress_map() == old(self).progress_map(),
    {
        self.votes.clear()
    }

    pub fn update_progress(&mut self, id: u64, progress: &Progress)
        ensures
            final(self).progress_map() == old(self).progress_map().insert(id, *progress),
            final(self).votes_map() == old(self).votes_map(),
    {
        self.progress.insert(id, progress.clone());
    }
}


/// No tracked node is counted both for and against, so the granted and the
/// rejected votes together never outnumber the voters.
pub proof fn lemma_votes_within_voters(progress: Map<u64, Progress>, votes: Map<u64, bool>)
    requires
        progress.dom().finite(),
    ensures
        voters_with(progress, votes, true).len() + voters_with(progress, votes, false).len()
            <= progress.dom().len(),
{
    let g = voters_with(progress, votes, true);
    let r = voters_with(progress, votes, false);
    vstd::set_lib::lemma_len_subset(g, progress.dom());
    vstd::set_lib::lemma_len_subset(r, progress.dom());
    assert(g.disjoint(r));
    vstd::set_lib::lemma_set_disjoint_lens(g, r);
    vstd::set_lib::lemma_len_subset(g + r, progress.dom());
}

/// An election once won stays won when one more tracked node grants its vote.
pub proof fn lemma_granted_vote_keeps_win(progress: Map<u64, Progress>, votes: Map<u64, bool>, from: u64)
    requires
        progress.dom().finite(),
        quorum_status(
            progress.dom().len(),
            voters_with(progress, votes, true).len(),
            voters_with(progress, votes, false).len(),
        ) == VoteQuorum::Won,
    ensures
        quorum_status(
            progress.dom().len(),
            voters_with(progress, votes.insert(from, true), true).len(),
            voters_with(progress, votes.insert(from, true), false).len(),
        ) == VoteQuorum::Won,
{
    let g = voters_with(progress, votes, true);
    let g2 = voters_with(progress, votes.insert(from, true), true);
    assert(g.subset_of(g2));
    vstd::set_lib::lemma_len_subset(g2, progress.dom());
    vstd::set_lib::lemma_len_subset(g, g2);
}

/// Each outcome of an election is decided by the counts alone: won exactly
/// on a strict majority of granted votes, lost exactly when the rejected
/// votes leave no strict majority possible.
pub proof fn lemma_quorum_cases(voters: nat, granted: nat, rejected: nat)
    requires
        granted + rejected <= voters,
    ensures
        (quorum_status(voters, granted, rejected) == VoteQuorum::Won) <==> 2 * granted > voters,
        (quorum_status(voters, granted, rejected) == VoteQuorum::Lost) <==> 2 * (voters - rejected)
            <= voters,
{
}

} // verus!
