use vstd::prelude::*;

use rand::Rng;
use std::sync::Arc;

use crate::atomic::AtomicU64;
use crate::message::{entries_view, Message, MessageType, MessageTypeView, MessageView};
use crate::network::Peer;
use crate::progress::{ProgressStatus, Progress, ProgressTracker};
use crate::rafterror::{RaftError, RaftErrorView};
use crate::storage::{Entry, EntryView, Storage};
use crate::type_def::{LogIndex, TermId, ZERO_TERM_ID};
use crate::raftnode::log::{RaftLog, up_to_date};

pub mod log;

verus! {

/// The node id that stands for "nobody": no leader known, no vote cast.
pub const NONE: u64 = 0;

/// The role a replica plays.
#[derive(Clone, Copy, Debug, PartialEq, Eq, Structural)]
pub enum StateType {
    Follower,
    Leader,
    Candidate,
}

/// How a replica is set up.
pub struct Config {
    port: usize,
    channel_buf_size: usize,
    election_timeout: u64,
    heartbeat_interval: u64,
}

impl Config {
    pub closed spec fn spec_port(&self) -> usize {
        self.port
    }

    pub closed spec fn spec_channel_buf_size(&self) -> usize {
        self.channel_buf_size
    }

    pub closed spec fn spec_election_timeout(&self) -> u64 {
        self.election_timeout
    }

    pub closed spec fn spec_heartbeat_interval(&self) -> u64 {
        self.heartbeat_interval
    }

    /// A configuration with a heartbeat interval of 3.
    pub fn new(port: usize, channel_buf_size: usize, election_timeout: u64) -> (c: Config)
        ensures
            c.spec_port() == port,
            c.spec_channel_buf_size() == channel_buf_size,
            c.spec_election_timeout() == election_timeout,
            c.spec_heartbeat_interval() == 3,
    {
        Config { port, channel_buf_size, election_timeout, heartbeat_interval: 3 }
    }

    /// A configuration with every setting given, as read from a file.
    pub fn from_settings(
        port: usize,
        channel_buf_size: usize,
        election_timeout: u64,
        heartbeat_interval: u64,
    ) -> (c: Config)
        ensures
            c.spec_port() == port,
            c.spec_channel_buf_size() == channel_buf_size,
            c.spec_election_timeout() == election_timeout,
            c.spec_heartbeat_interval() == heartbeat_interval,
    {
        Config { port, channel_buf_size, election_timeout, heartbeat_interval }
    }

    pub fn port(&self) -> (p: usize)
        ensures
            p == self.spec_port(),
    {
        self.port
    }

    pub fn channel_buf_size(&self) -> (s: usize)
        ensures
            s == self.spec_channel_buf_size(),
    {
        self.channel_buf_size
    }

    pub fn election_timeout(&self) -> (t: u64)
        ensures
            t == self.spec_election_timeout(),
    {
        self.election_timeout
    }

    pub fn heartbeat_interval(&self) -> (h: u64)
        ensures
            h == self.spec_heartbeat_interval(),
    {
        self.heartbeat_interval
    }
}

/// A number drawn uniformly from `0..bound` by `rand::Rng::sample` on the
/// thread-local generator `rand::thread_rng()`, with the distribution
/// `rand::distributions::Uniform::from(0..bound)`. The contract claims only
/// that the number lies in that range; `Uniform::new` panics on an empty
/// range, so the range may not be empty.
#[verifier::external_body]
fn random_below(bound: u64) -> (r: u64)
    requires
        bound > 0,
    ensures
        r < bound,
{
    rand::thread_rng().sample(rand::distributions::Uniform::from(0..bound))
}

/// Whether the peers are in increasing order of id.
pub open spec fn sorted_by_id(peers: Seq<Peer>) -> bool {
    forall|i: int, j: int| 0 <= i < j < peers.len() ==> peers[i]@.id <= peers[j]@.id
}

/// The peers with id `id`, in their order in `peers`.
pub open spec fn with_id(peers: Seq<Peer>, id: u64) -> Seq<Peer> {
    peers.filter(has_id(id))
}

/// Whether a peer has id `id`.
pub open spec fn has_id(id: u64) -> spec_fn(Peer) -> bool {
    |p: Peer| p@.id == id
}

/// No peer has id `id` when all have smaller ids.
proof fn lemma_none_with_id(s: Seq<Peer>, id: u64)
    requires
        forall|j: int| 0 <= j < s.len() ==> s[j]@.id < id,
    ensures
        with_id(s, id) == Seq::<Peer>::empty(),
{
    let f = with_id(s, id);
    if f.len() > 0 {
        let x = f[0];
        assert(f.contains(x));
        s.lemma_filter_contains_rev(has_id(id), x);
        s.lemma_filter_pred(has_id(id), 0);
    }
    assert(f =~= Seq::<Peer>::empty());
}

/// Orders `peers` by id, keeping the relative order of peers with equal ids.
fn sort_by_id(peers: Vec<Peer>) -> (sorted: Vec<Peer>)
    ensures
        sorted@.to_multiset() == peers@.to_multiset(),
        sorted_by_id(sorted@),
        forall|id: u64| #[trigger] with_id(sorted@, id) == with_id(peers@, id),
{
    broadcast use vstd::seq_lib::group_to_multiset_ensures;
    let ghost input = peers@;
    let mut rest = peers;
    let mut sorted: Vec<Peer> = Vec::new();
    proof {
        assert(input.skip(input.len() as int) =~= Seq::<Peer>::empty());
        assert(rest@ =~= input.take(rest@.len() as int));
        assert forall|id: u64| #[trigger] with_id(sorted@, id) == with_id(input.skip(rest@.len() as int), id) by {
            assert(with_id(sorted@, id) =~= Seq::<Peer>::empty());
            assert(with_id(input.skip(rest@.len() as int), id) =~= Seq::<Peer>::empty());
        }
    }
    while rest.len() > 0
        invariant
            sorted@.to_multiset().add(rest@.to_multiset()) == input.to_multiset(),
            sorted_by_id(sorted@),
            rest@.len() <= input.len(),
            rest@ == input.take(rest@.len() as int),
            forall|id: u64| #[trigger] with_id(sorted@, id) == with_id(input.skip(rest@.len() as int), id),
        decreases rest.len(),
    {
        let ghost before = rest@;
        let ghost n = before.len() as int;
        let p = rest.pop().unwrap();
        proof {
            assert(before =~= rest@.push(p));
            assert(rest@ =~= input.take(n - 1));
            assert(input.skip(n - 1) =~= seq![p] + input.skip(n));
        }
        let pid = p.id();
        let mut i: usize = 0;
        while i < sorted.len() && sorted[i].id() < pid
            invariant
                i <= sorted.len(),
                forall|j: int| 0 <= j < i ==> sorted@[j]@.id < pid,
            decreases sorted.len() - i,
        {
            i = i + 1;
        }
        let ghost old_sorted = sorted@;
        sorted.insert(i, p);
        proof {
            assert(sorted@ == old_sorted.insert(i as int, p));
            vstd::seq_lib::to_multiset_insert(old_sorted, i as int, p);
            vstd::seq_lib::to_multiset_build(rest@, p);
            assert(sorted@.to_multiset().add(rest@.to_multiset()) =~= old_sorted.to_multiset().add(
                before.to_multiset(),
            ));
            assert forall|a: int, b: int| 0 <= a < b < sorted@.len() implies sorted@[a]@.id
                <= sorted@[b]@.id by {
                if a < i && b > i {
                    assert(sorted@[b] == old_sorted[b - 1]);
                    if (i as int) < old_sorted.len() {
                        assert(old_sorted[i as int]@.id >= pid);
                    }
                }
                if a == i && b > i {
                    assert(old_sorted[i as int]@.id >= pid);
                }
            }
            let front = old_sorted.take(i as int);
            let back = old_sorted.skip(i as int);
            assert(old_sorted =~= front + back);
            assert(sorted@ =~= front + (seq![p] + back));
            assert forall|id: u64| #[trigger] with_id(sorted@, id) == with_id(input.skip(n - 1), id) by {
                let pred = has_id(id);
                Seq::filter_distributes_over_add(front, seq![p] + back, pred);
                Seq::filter_distributes_over_add(front, back, pred);
                back.lemma_filter_prepend(p, pred);
                input.skip(n).lemma_filter_prepend(p, pred);
                assert(with_id(old_sorted, id) == with_id(front, id) + with_id(back, id));
                if pid == id {
                    lemma_none_with_id(front, id);
                    assert(with_id(back, id) =~= with_id(old_sorted, id));
                    assert(with_id(sorted@, id) =~= seq![p] + with_id(back, id));
                } else {
                    assert(with_id(seq![p] + back, id) =~= with_id(back, id));
                    assert(with_id(input.skip(n - 1), id) =~= with_id(input.skip(n), id));
                }
            }
        }
    }
    proof {
        assert(input.skip(0) =~= input);
    }
    sorted
}

/// What a replica holds, as its message handlers see it.
pub struct RaftView {
    pub state: StateType,
    pub id: u64,
    pub port: usize,
    pub current_term: TermId,
    pub election_timeout: u64,
    pub elapsed: u64,
    pub heartbeat_interval: u64,
    pub leader: u64,
    pub vote_for: u64,
    pub random_timeout: u64,
    pub peers: Seq<Peer>,
    pub log: Seq<EntryView>,
    pub progress: Map<u64, Progress>,
    pub votes: Map<u64, bool>,
}

/// The ids of the peers, in order.
pub open spec fn peer_ids(peers: Seq<Peer>) -> Seq<u64> {
    peers.map_values(|p: Peer| p@.id)
}

/// Whether a log can be said to end at `index` in `term`: its last entry is
/// there when it has one (with no entry, the storage behind it decides).
pub open spec fn log_ends_at(log: Seq<EntryView>, index: LogIndex, term: TermId) -> bool {
    log.len() > 0 ==> index == log.last().index && term == log.last().term
}

/// What handling a message gives back: a message to send, or nothing, or an error.
pub type StepOutcome = Result<Option<MessageView>, RaftErrorView>;

/// The view of what a handler returned.
pub open spec fn outcome(r: Result<Option<Message>, RaftError>) -> StepOutcome {
    match r {
        Ok(Some(m)) => Ok(Some(m@)),
        Ok(None) => Ok(None),
        Err(e) => Err(e@),
    }
}

/// The replica's own replication status, as its progress tracker records it.
pub open spec fn own_status(v: RaftView) -> ProgressStatus {
    v.progress[v.id].spec_status()
}

/// A message of kind `t` from the replica to the single node `to`, in its
/// current term.
pub open spec fn reply(v: RaftView, to: u64, t: MessageTypeView) -> MessageView {
    MessageView { msg_type: t, from: v.id, to: seq![to], term: v.current_term }
}

/// A message of kind `t` from the replica to all its peers, in its current term.
pub open spec fn to_all_peers(v: RaftView, t: MessageTypeView) -> MessageView {
    MessageView { msg_type: t, from: v.id, to: peer_ids(v.peers), term: v.current_term }
}

/// Whether the replica may vote for `from`, asking in `term`: it already
/// voted for `from`, or it has neither voted nor heard of a leader, or the
/// term is later than its own.
pub open spec fn can_vote(v: RaftView, from: u64, term: TermId) -> bool {
    v.vote_for == from || (v.vote_for == NONE && v.leader == NONE) || term > v.current_term
}

/// The term kept after hearing of `term`: the later of the two.
pub open spec fn later_term(current: TermId, term: TermId) -> TermId {
    if current <= term {
        term
    } else {
        current
    }
}

/// The replica after its election timer restarts with the random timeout `rnd`.
pub open spec fn timer_restarted(v: RaftView, rnd: u64) -> RaftView {
    RaftView { elapsed: 0, random_timeout: rnd, ..v }
}

/// The replica after it follows `from` in `term`: its timer restarts with
/// timeout `rnd`, it takes the later term, and it forgets the votes it counted.
pub open spec fn stepped_down(v: RaftView, term: TermId, from: u64, rnd: u64) -> RaftView {
    RaftView {
        state: StateType::Follower,
        leader: from,
        current_term: later_term(v.current_term, term),
        votes: Map::empty(),
        ..timer_restarted(v, rnd)
    }
}

/// A replica: its role, its term, its log, its view of the cluster.
pub struct Raft<S: Storage> {
    state: StateType,
    peers: Vec<Peer>,
    id: u64,
    raft_port: usize,
    current_term: TermId,
    election_timeout: u64,
    election_elapse: AtomicU64,
    heartbeat_interval: u64,
    log_entries: Vec<Entry>,
    leader: u64,
    progress: ProgressTracker,
    raftlog: RaftLog<S>,
    vote_for: u64,
    random_election_timeout: u64,
}

impl<S: Storage> View for Raft<S> {
    type V = RaftView;

    closed spec fn view(&self) -> RaftView {
        RaftView {
            state: self.state,
            id: self.id,
            port: self.raft_port,
            current_term: self.current_term,
            election_timeout: self.election_timeout,
            elapsed: self.election_elapse@,
            heartbeat_interval: self.heartbeat_interval,
            leader: self.leader,
            vote_for: self.vote_for,
            random_timeout: self.random_election_timeout,
            peers: self.peers@,
            log: entries_view(self.raftlog.spec_entries()),
            progress: self.progress.progress_map(),
            votes: self.progress.votes_map(),
        }
    }
}

/// A follower in term zero that knows `peers`, ordered by id, and whose log
/// sits in front of `storage`.
pub fn new_raft<S: Storage>(id: u64, config: Config, storage: Arc<S>, peers: Vec<Peer>) -> (r: Raft<S>)
    ensures
        r.wf(),
        r@.peers.to_multiset() == peers@.to_multiset(),
        sorted_by_id(r@.peers),
        forall|peer_id: u64| #[trigger] with_id(r@.peers, peer_id) == with_id(peers@, peer_id),
        r@.state == StateType::Follower,
        r@.id == id,
        r@.port == config.spec_port(),
        r@.current_term == ZERO_TERM_ID,
        r@.election_timeout == config.spec_election_timeout(),
        r@.elapsed == 0,
        r@.heartbeat_interval == config.spec_heartbeat_interval(),
        r@.leader == NONE,
        r@.vote_for == NONE,
        r@.random_timeout == 0,
        r@.log == Seq::<EntryView>::empty(),
        r@.progress.dom() == set![id],
        r@.progress[id].spec_status() == ProgressStatus::Follower,
        r@.progress[id].spec_matched() == 0,
        r@.progress[id].spec_next() == 0,
        r@.votes == Map::<u64, bool>::empty(),
{
    let sorted = sort_by_id(peers);
    let raftlog = log::new(storage);
    proof {
        assert(entries_view(raftlog.spec_entries()) =~= Seq::<EntryView>::empty());
    }
    Raft {
        state: StateType::Follower,
        peers: sorted,
        id,
        raft_port: config.port(),
        current_term: ZERO_TERM_ID,
        election_timeout: config.election_timeout(),
        election_elapse: AtomicU64::new(0),
        heartbeat_interval: config.heartbeat_interval(),
        log_entries: Vec::new(),
        leader: NONE,
        progress: ProgressTracker::new(id),
        raftlog,
        vote_for: NONE,
        random_election_timeout: 0,
    }
}

impl<S: Storage> Raft<S> {
    /// The replica tracks its own progress, and its peers are ordered by id.
    pub closed spec fn wf(&self) -> bool {
        &&& self.progress.progress_map().contains_key(self.id)
        &&& sorted_by_id(self.peers@)
    }

    pub fn is_leader(&self) -> (b: bool)
        ensures
            b == (self@.state == StateType::Leader),
    {
        self.state == StateType::Leader
    }

    pub fn is_follower(&self) -> (b: bool)
        ensures
            b == (self@.state == StateType::Follower),
    {
        self.state == StateType::Follower
    }

    pub fn is_candidate(&self) -> (b: bool)
        ensures
            b == (self@.state == StateType::Candidate),
    {
        self.state == StateType::Candidate
    }

    pub fn state(&self) -> (s: StateType)
        ensures
            s == self@.state,
    {
        self.state
    }

    pub fn current_term(&self) -> (t: TermId)
        ensures
            t == self@.current_term,
    {
        self.current_term
    }

    pub fn node_id(&self) -> (id: u64)
        ensures
            id == self@.id,
    {
        self.id
    }

    /// The node this replica takes for the leader; `NONE` when it knows none.
    pub fn leader(&self) -> (l: u64)
        ensures
            l == self@.leader,
    {
        self.leader
    }

    /// How long the election timer may run before a follower stands for election.
    pub fn election_timeout(&self) -> (t: u64)
        ensures
            t == self@.election_timeout,
    {
        self.election_timeout
    }

    /// The interval, in milliseconds, between a leader's heartbeats.
    pub fn heartbeat_interval(&self) -> (h: u64)
        ensures
            h == self@.heartbeat_interval,
    {
        self.heartbeat_interval
    }

    /// Whether handling `msg` in the current role restarts the election timer.
    pub fn step_restarts_timer(&self, msg: &Message) -> (b: bool)
        ensures
            b == restarts_timer(self@.state, msg@.msg_type),
    {
        match msg.message_type() {
            MessageType::AppEntries { .. } => self.state == StateType::Candidate,
            MessageType::Heartbeat => self.state == StateType::Follower,
            _ => false,
        }
    }

    /// How far the election timer has run.
    pub fn election_elapsed(&self) -> (e: u64)
        ensures
            e == self@.elapsed,
    {
        self.election_elapse.get()
    }

    /// The random timeout drawn when the election timer last restarted.
    pub fn random_election_timeout(&self) -> (t: u64)
        ensures
            t == self@.random_timeout,
    {
        self.random_election_timeout
    }

    /// The progress and votes this replica tracks.
    pub fn progress_tracker(&self) -> (t: &ProgressTracker)
        ensures
            t.progress_map() == self@.progress,
            t.votes_map() == self@.votes,
    {
        &self.progress
    }

    /// The peers this replica knows, ordered by id.
    pub fn peers(&self) -> (p: &Vec<Peer>)
        ensures
            p@ == self@.peers,
    {
        &self.peers
    }

    /// Whether the election timer has run for at least the election timeout.
    pub fn post_election_timeout(&self) -> (b: bool)
        ensures
            b == (self@.elapsed >= self@.election_timeout),
    {
        self.election_elapse.get() >= self.election_timeout
    }

    pub fn last_log_index(&self) -> (i: LogIndex)
        ensures
            self@.log.len() > 0 ==> i == self@.log.last().index,
    {
        self.raftlog.last_index()
    }

    pub fn last_log_term(&self) -> (t: TermId)
        ensures
            self@.log.len() > 0 ==> t == self@.log.last().term,
    {
        self.raftlog.last_term()
    }

    /// The first peer with id `id`, if there is one.
    pub fn get_peer(&self, id: &u64) -> (p: Option<&Peer>)
        ensures
            match p {
                Some(q) => exists|i: int|
                    0 <= i < self@.peers.len() && self@.peers[i] == *q && q@.id == *id
                        && forall|j: int| 0 <= j < i ==> self@.peers[j]@.id != *id,
                None => forall|j: int| 0 <= j < self@.peers.len() ==> self@.peers[j]@.id != *id,
            },
    {
        let mut i: usize = 0;
        while i < self.peers.len()
            invariant
                i <= self.peers@.len(),
                forall|j: int| 0 <= j < i ==> self.peers@[j]@.id != *id,
            decreases self.peers@.len() - i,
        {
            if self.peers[i].id() == *id {
                assert(self@.peers[i as int] == self.peers@[i as int]);
                return Some(&self.peers[i]);
            }
            i = i + 1;
        }
        None
    }

    /// The ids of all peers, in order.
    fn peer_ids(&self) -> (ids: Vec<u64>)
        ensures
            ids@ == peer_ids(self@.peers),
    {
        let mut ids: Vec<u64> = Vec::new();
        let mut i: usize = 0;
        while i < self.peers.len()
            invariant
                i <= self.peers@.len(),
                ids@ == peer_ids(self.peers@.take(i as int)),
            decreases self.peers@.len() - i,
        {
            ids.push(self.peers[i].id());
            proof {
                assert(self.peers@.take(i + 1) =~= self.peers@.take(i as int).push(self.peers@[i as int]));
            }
            i = i + 1;
        }
        proof {
            assert(self.peers@.take(i as int) =~= self.peers@);
        }
        ids
    }
}


/// How a candidate handles message `m`, going from `v` to `w` with outcome `out`:
/// it answers a heartbeat, rejecting one from an earlier term; it records a
/// vote; it follows the sender of entries and appends them; it answers a
/// request for its vote; it refuses any other kind.
pub open spec fn candidate_step(v: RaftView, m: MessageView, w: RaftView, out: StepOutcome) -> bool {
    match m.msg_type {
        MessageTypeView::Heartbeat => {
            &&& w == v
            &&& out == StepOutcome::Ok(
                Some(
                    reply(
                        v,
                        m.from,
                        MessageTypeView::HeartbeatResp {
                            status: own_status(v),
                            reject: v.current_term > m.term,
                        },
                    ),
                ),
            )
        },
        MessageTypeView::VoteRsp { granted } => {
            &&& w == (RaftView { votes: v.votes.insert(m.from, granted), ..v })
            &&& out == StepOutcome::Ok(None)
        },
        MessageTypeView::AppEntries { entries } => {
            &&& w.random_timeout < v.election_timeout
            &&& w == (RaftView {
                log: v.log + entries,
                ..stepped_down(v, m.term, m.from, w.random_timeout)
            })
            &&& out == StepOutcome::Ok(None)
        },
        MessageTypeView::Vote { last_log_index, last_log_term } => {
            &&& w == v
            &&& exists|index: LogIndex, term: TermId|
                log_ends_at(v.log, index, term) && out == StepOutcome::Ok(
                    Some(
                        reply(
                            v,
                            m.from,
                            MessageTypeView::VoteRsp {
                                granted: can_vote(v, m.from, m.term) && up_to_date(
                                    index,
                                    term,
                                    last_log_index,
                                    last_log_term,
                                ),
                            },
                        ),
                    ),
                )
        },
        _ => {
            &&& w == v
            &&& out == StepOutcome::Err(RaftErrorView::NotSupportedMessageType(m.msg_type))
        },
    }
}

/// Whether a follower takes entries sent in `term`: not from an earlier term.
pub open spec fn accepts_entries(v: RaftView, term: TermId) -> bool {
    term >= v.current_term
}

/// How a follower handles message `m`, going from `v` to `w` with outcome `out`:
/// it appends entries that are not from an earlier term and answers; on a
/// heartbeat it restarts its election timer, follows the sender when the
/// heartbeat is not from an earlier term, and answers; it refuses any other kind.
pub open spec fn follower_step(v: RaftView, m: MessageView, w: RaftView, out: StepOutcome) -> bool {
    match m.msg_type {
        MessageTypeView::AppEntries { entries } => {
            &&& w == (if accepts_entries(v, m.term) {
                RaftView { log: v.log + entries, ..v }
            } else {
                v
            })
            &&& out == StepOutcome::Ok(
                Some(
                    reply(
                        v,
                        m.from,
                        MessageTypeView::AppEntriesResp { rejected: accepts_entries(v, m.term) },
                    ),
                ),
            )
        },
        MessageTypeView::Heartbeat => {
            &&& w.random_timeout < v.election_timeout
            &&& w == (if m.term >= v.current_term {
                stepped_down(v, m.term, m.from, w.random_timeout)
            } else {
                timer_restarted(v, w.random_timeout)
            })
            &&& out == StepOutcome::Ok(
                Some(
                    reply(
                        w,
                        m.from,
                        MessageTypeView::HeartbeatResp { status: own_status(v), reject: false },
                    ),
                ),
            )
        },
        _ => {
            &&& w == v
            &&& out == StepOutcome::Err(RaftErrorView::NotSupportedMessageType(m.msg_type))
        },
    }
}

/// How a leader handles message `m`: answers to its heartbeats and entries,
/// and requests for votes, change nothing; it refuses any other kind.
pub open spec fn leader_step(v: RaftView, m: MessageView, w: RaftView, out: StepOutcome) -> bool {
    &&& w == v
    &&& match m.msg_type {
        MessageTypeView::HeartbeatResp { .. } => out == StepOutcome::Ok(None),
        MessageTypeView::Vote { .. } => out == StepOutcome::Ok(None),
        MessageTypeView::AppEntriesResp { .. } => out == StepOutcome::Ok(None),
        _ => out == StepOutcome::Err(RaftErrorView::NotSupportedMessageType(m.msg_type)),
    }
}

/// How a replica in any role handles message `m`.
pub open spec fn raft_step(v: RaftView, m: MessageView, w: RaftView, out: StepOutcome) -> bool {
    match v.state {
        StateType::Candidate => candidate_step(v, m, w, out),
        StateType::Follower => follower_step(v, m, w, out),
        StateType::Leader => leader_step(v, m, w, out),
    }
}

/// Whether handling a message of kind `t` in role `state` restarts the
/// election timer, which draws a random timeout below the election timeout.
pub open spec fn restarts_timer(state: StateType, t: MessageTypeView) -> bool {
    ||| state == StateType::Candidate && t is AppEntries
    ||| state == StateType::Follower && t is Heartbeat
}

impl<S: Storage> Raft<S> {
    fn refresh_election_elapse(&mut self)
        requires
            old(self).wf(),
            old(self)@.election_timeout > 0,
        ensures
            final(self).wf(),
            final(self)@ == timer_restarted(old(self)@, final(self)@.random_timeout),
            final(self)@.random_timeout < old(self)@.election_timeout,
    {
        self.random_election_timeout = random_below(self.election_timeout);
        self.election_elapse.set(0)
    }

    fn reset(&mut self, term: TermId)
        requires
            old(self).wf(),
        ensures
            final(self).wf(),
            final(self)@ == (RaftView {
                current_term: later_term(old(self)@.current_term, term),
                votes: Map::empty(),
                ..old(self)@
            }),
    {
        if self.current_term <= term {
            self.current_term = term;
        }
        self.progress.reset_vote()
    }

    fn become_follower(&mut self, term: TermId, from: u64)
        requires
            old(self).wf(),
            old(self)@.election_timeout > 0,
        ensures
            final(self).wf(),
            final(self)@ == stepped_down(old(self)@, term, from, final(self)@.random_timeout),
            final(self)@.random_timeout < old(self)@.election_timeout,
    {
        self.refresh_election_elapse();
        self.state = StateType::Follower;
        self.leader = from;
        self.reset(term);
    }

    /// Whether this replica may vote for `from`, asking in `term`.
    pub fn can_vote(&self, from: u64, term: TermId) -> (b: bool)
        ensures
            b == can_vote(self@, from, term),
    {
        self.vote_for == from || (self.vote_for == NONE && self.leader == NONE) || term
            > self.current_term
    }

    /// A request for votes to all peers, naming the end of this replica's log.
    pub fn vote_for_self(&self) -> (m: Message)
        ensures
            exists|index: LogIndex, term: TermId|
                log_ends_at(self@.log, index, term) && m@ == to_all_peers(
                    self@,
                    MessageTypeView::Vote { last_log_index: index, last_log_term: term },
                ),
    {
        let last_log_index = self.last_log_index();
        let last_log_term = self.last_log_term();
        let m = Message::new(
            MessageType::Vote { last_log_index, last_log_term },
            self.id,
            self.peer_ids(),
            self.current_term,
        );
        assert(log_ends_at(self@.log, last_log_index, last_log_term));
        m
    }

    /// Stands for election: the replica becomes a candidate, restarts its
    /// timer, and gives back its request for votes.
    pub fn become_candidate(&mut self) -> (vote: Message)
        requires
            old(self).wf(),
            old(self)@.election_timeout > 0,
        ensures
            final(self).wf(),
            final(self)@ == (RaftView {
                state: StateType::Candidate,
                ..timer_restarted(old(self)@, final(self)@.random_timeout)
            }),
            final(self)@.random_timeout < old(self)@.election_timeout,
            exists|index: LogIndex, term: TermId|
                log_ends_at(final(self)@.log, index, term) && vote@ == to_all_peers(
                    final(self)@,
                    MessageTypeView::Vote { last_log_index: index, last_log_term: term },
                ),
    {
        self.state = StateType::Candidate;
        self.refresh_election_elapse();
        self.vote_for_self()
    }

    /// A message of kind `t` from this replica to `to` alone.
    fn reply_to(&self, to: u64, t: MessageType) -> (m: Message)
        ensures
            m@ == reply(self@, to, t@),
    {
        let mut receivers: Vec<u64> = Vec::new();
        receivers.push(to);
        proof {
            assert(receivers@ =~= seq![to]);
        }
        Message::new(t, self.id, receivers, self.current_term)
    }

    /// This replica's own replication status.
    fn own_status(&self) -> (s: ProgressStatus)
        requires
            self.wf(),
        ensures
            s == own_status(self@),
    {
        self.progress.progress(&self.id).unwrap().status()
    }
}


impl<S: Storage> Raft<S> {
    fn step_candidate(&mut self, msg: Message) -> (r: Result<Option<Message>, RaftError>)
        requires
            old(self).wf(),
            old(self)@.state == StateType::Candidate,
            restarts_timer(old(self)@.state, msg@.msg_type) ==> old(self)@.election_timeout > 0,
        ensures
            final(self).wf(),
            candidate_step(old(self)@, msg@, final(self)@, outcome(r)),
    {
        let (msg_type, from, _to, term) = msg.into_parts();
        match msg_type {
            MessageType::Heartbeat => {
                let reject = self.current_term > term;
                let status = self.own_status();
                Ok(Some(self.reply_to(from, MessageType::HeartbeatResp { status, reject })))
            },
            MessageType::VoteRsp { granted } => {
                self.progress.record_vote(from, granted);
                let _outcome = self.progress.tally_votes().status();
                Ok(None)
            },
            MessageType::AppEntries { mut entries } => {
                let ghost appended = entries@;
                self.become_follower(term, from);
                let ghost before = self.raftlog.spec_entries();
                self.raftlog.append(&mut entries);
                proof {
                    assert(entries_view(before + appended) =~= entries_view(before) + entries_view(
                        appended,
                    ));
                }
                Ok(None)
            },
            MessageType::Vote { last_log_index, last_log_term } => {
                let ghost v = self@;
                let mut granted = false;
                if self.can_vote(from, term) {
                    granted = self.raftlog.is_up_to_date(last_log_index, last_log_term);
                    proof {
                        let (index, t) = choose|index: LogIndex, t: TermId|
                            log::ends_at(self.raftlog.spec_entries(), index, t) && granted
                                == up_to_date(index, t, last_log_index, last_log_term);
                        assert(log_ends_at(v.log, index, t));
                    }
                } else {
                    proof {
                        let index = if v.log.len() > 0 { v.log.last().index } else { 0 };
                        let t = if v.log.len() > 0 { v.log.last().term } else { 0 };
                        assert(log_ends_at(v.log, index, t));
                    }
                }
                let answer = self.reply_to(from, MessageType::VoteRsp { granted });
                Ok(Some(answer))
            },
            other => Err(RaftError::NotSupportedMessageType(other)),
        }
    }

    /// Whether entries sent in `term` may be appended.
    fn can_accept(&self, term: TermId, entries: &Vec<Entry>) -> (b: bool)
        ensures
            b == accepts_entries(self@, term),
    {
        term >= self.current_term
    }

    fn step_follower(&mut self, msg: Message) -> (r: Result<Option<Message>, RaftError>)
        requires
            old(self).wf(),
            old(self)@.state == StateType::Follower,
            restarts_timer(old(self)@.state, msg@.msg_type) ==> old(self)@.election_timeout > 0,
        ensures
            final(self).wf(),
            follower_step(old(self)@, msg@, final(self)@, outcome(r)),
    {
        let (msg_type, from, _to, term) = msg.into_parts();
        match msg_type {
            MessageType::AppEntries { mut entries } => {
                let mut granted = false;
                if self.can_accept(term, &entries) {
                    let ghost appended = entries@;
                    let ghost before = self.raftlog.spec_entries();
                    self.raftlog.append(&mut entries);
                    proof {
                        assert(entries_view(before + appended) =~= entries_view(before)
                            + entries_view(appended));
                    }
                    granted = true;
                }
                Ok(Some(self.reply_to(from, MessageType::AppEntriesResp { rejected: granted })))
            },
            MessageType::Heartbeat => {
                if term >= self.current_term {
                    self.become_follower(term, from);
                } else {
                    self.refresh_election_elapse();
                }
                let status = self.own_status();
                Ok(Some(self.reply_to(from, MessageType::HeartbeatResp { status, reject: false })))
            },
            other => Err(RaftError::NotSupportedMessageType(other)),
        }
    }

    fn step_leader(&self, msg: Message) -> (r: Result<Option<Message>, RaftError>)
        requires
            self@.state == StateType::Leader,
        ensures
            leader_step(self@, msg@, self@, outcome(r)),
    {
        let (msg_type, _from, _to, _term) = msg.into_parts();
        match msg_type {
            MessageType::HeartbeatResp { .. } => Ok(None),
            MessageType::Vote { .. } => Ok(None),
            MessageType::AppEntriesResp { .. } => Ok(None),
            other => Err(RaftError::NotSupportedMessageType(other)),
        }
    }

    /// Handles one message according to the replica's role, and gives back
    /// the message to send in answer, if any.
    pub fn step(&mut self, msg: Message) -> (r: Result<Option<Message>, RaftError>)
        requires
            old(self).wf(),
            restarts_timer(old(self)@.state, msg@.msg_type) ==> old(self)@.election_timeout > 0,
        ensures
            final(self).wf(),
            raft_step(old(self)@, msg@, final(self)@, outcome(r)),
    {
        match self.state {
            StateType::Candidate => self.step_candidate(msg),
            StateType::Follower => self.step_follower(msg),
            StateType::Leader => self.step_leader(msg),
        }
    }
}


/// Whether `p` is the first of `peers` with id `id`.
pub open spec fn first_with_id(peers: Seq<Peer>, id: u64, p: Peer) -> bool {
    exists|i: int|
        0 <= i < peers.len() && peers[i] == p && p@.id == id && forall|j: int|
            0 <= j < i ==> peers[j]@.id != id
}

/// Whether some of `peers` has id `id`.
pub open spec fn knows_peer(peers: Seq<Peer>, id: u64) -> bool {
    exists|i: int| 0 <= i < peers.len() && peers[i]@.id == id
}

/// Whether messages of kind `t` go out to the whole cluster.
pub open spec fn is_broadcast(t: MessageTypeView) -> bool {
    t is Vote || t is Heartbeat
}

impl<S: Storage> Raft<S> {
    /// Decides where a message the replica produced goes: requests for votes
    /// and heartbeats are broadcast through the replica's own peer, which is
    /// given back; other messages go nowhere. Fails when the replica is not
    /// among its peers.
    pub fn send_internal_to_peers(&self, msg: &Message) -> (r: Result<Option<&Peer>, RaftError>)
        ensures
            match r {
                Ok(Some(p)) => (msg@.msg_type is Vote || msg@.msg_type is Heartbeat) && first_with_id(
                    self@.peers,
                    self@.id,
                    *p,
                ),
                Ok(None) => !(msg@.msg_type is Vote || msg@.msg_type is Heartbeat) && knows_peer(
                    self@.peers,
                    self@.id,
                ),
                Err(e) => e@ == RaftErrorView::MissPeer(self@.id) && !knows_peer(self@.peers, self@.id),
            },
    {
        let node_id = self.node_id();
        match self.get_peer(&node_id) {
            Some(peer) => match msg.message_type() {
                MessageType::Vote { .. } => Ok(Some(peer)),
                MessageType::Heartbeat => Ok(Some(peer)),
                _ => Ok(None),
            },
            None => Err(RaftError::MissPeer(node_id)),
        }
    }

    /// What the replica does when no message is waiting: a follower whose
    /// election timer has run out stands for election and gives back its
    /// request for votes; otherwise nothing happens.
    pub fn on_inbox_empty(&mut self) -> (vote: Option<Message>)
        requires
            old(self).wf(),
            old(self)@.state == StateType::Follower ==> old(self)@.election_timeout > 0,
        ensures
            final(self).wf(),
            if old(self)@.elapsed >= old(self)@.election_timeout && old(self)@.state
                == StateType::Follower {
                &&& final(self)@ == (RaftView {
                    state: StateType::Candidate,
                    ..timer_restarted(old(self)@, final(self)@.random_timeout)
                })
                &&& final(self)@.random_timeout < old(self)@.election_timeout
                &&& vote is Some
                &&& exists|index: LogIndex, term: TermId|
                    log_ends_at(final(self)@.log, index, term) && vote.unwrap()@ == to_all_peers(
                        final(self)@,
                        MessageTypeView::Vote { last_log_index: index, last_log_term: term },
                    )
            } else {
                final(self)@ == old(self)@ && vote is None
            },
    {
        if self.post_election_timeout() && self.is_follower() {
            Some(self.become_candidate())
        } else {
            None
        }
    }

    /// What a leader does on each tick of its heartbeat interval: it advances
    /// its election timer and gives back a heartbeat for all peers. A replica
    /// in another role does nothing.
    pub fn on_heartbeat_tick(&mut self) -> (heartbeat: Option<Message>)
        requires
            old(self).wf(),
        ensures
            final(self).wf(),
            if old(self)@.state == StateType::Leader {
                &&& final(self)@ == (RaftView {
                    elapsed: AtomicU64::successor(old(self)@.elapsed),
                    ..old(self)@
                })
                &&& heartbeat is Some
                &&& heartbeat.unwrap()@ == to_all_peers(old(self)@, MessageTypeView::Heartbeat)
            } else {
                final(self)@ == old(self)@ && heartbeat is None
            },
    {
        if self.is_leader() {
            self.election_elapse.get_and_increment();
            Some(Message::new(MessageType::Heartbeat, self.id, self.peer_ids(), self.current_term))
        } else {
            None
        }
    }
}


/// A replica's term never goes backwards: handling any message leaves it
/// with a term at least as late as before.
pub proof fn lemma_step_never_lowers_term(v: RaftView, m: MessageView, w: RaftView, out: StepOutcome)
    requires
        raft_step(v, m, w, out),
    ensures
        w.current_term >= v.current_term,
{
}

/// Handling a message never removes or changes an entry of the log: the log
/// before is a prefix of the log after.
pub proof fn lemma_step_only_appends(v: RaftView, m: MessageView, w: RaftView, out: StepOutcome)
    requires
        raft_step(v, m, w, out),
    ensures
        v.log.is_prefix_of(w.log),
{
    assert(v.log =~= w.log.subrange(0, v.log.len() as int));
}

/// Handling a message never changes who the replica is, whom it knows, how
/// it is configured, or what progress it tracks.
pub proof fn lemma_step_keeps_identity(v: RaftView, m: MessageView, w: RaftView, out: StepOutcome)
    requires
        raft_step(v, m, w, out),
    ensures
        w.id == v.id,
        w.peers == v.peers,
        w.port == v.port,
        w.election_timeout == v.election_timeout,
        w.heartbeat_interval == v.heartbeat_interval,
        w.progress == v.progress,
        w.vote_for == v.vote_for,
{
}

/// A replica never grants its vote to a candidate whose log is behind its
/// own: when its log holds entries and it answers a request for votes with a
/// granted vote, the candidate's log is at least as up to date as its own.
pub proof fn lemma_vote_granted_only_to_up_to_date_log(
    v: RaftView,
    m: MessageView,
    w: RaftView,
    out: StepOutcome,
    answer: MessageView,
)
    requires
        raft_step(v, m, w, out),
        v.log.len() > 0,
        m.msg_type is Vote,
        out == StepOutcome::Ok(Some(answer)),
        answer.msg_type == (MessageTypeView::VoteRsp { granted: true }),
    ensures
        up_to_date(
            v.log.last().index,
            v.log.last().term,
            m.msg_type->Vote_last_log_index,
            m.msg_type->Vote_last_log_term,
        ),
        can_vote(v, m.from, m.term),
{
}

/// Whatever message a follower or candidate receives, it answers from its
/// own id in its own (possibly just raised) term, to the sender alone.
pub proof fn lemma_answers_go_to_sender(
    v: RaftView,
    m: MessageView,
    w: RaftView,
    out: StepOutcome,
    answer: MessageView,
)
    requires
        raft_step(v, m, w, out),
        out == StepOutcome::Ok(Some(answer)),
    ensures
        answer.from == v.id,
        answer.to == seq![m.from],
        answer.term == w.current_term,
{
}


/// Only requests for votes and heartbeats go out to the whole cluster:
/// answers of every kind (to votes, heartbeats and entries) and entries do not.
pub proof fn lemma_only_votes_and_heartbeats_are_broadcast(t: MessageTypeView)
    ensures
        t is Vote ==> is_broadcast(t),
        t is Heartbeat ==> is_broadcast(t),
        t is VoteRsp ==> !is_broadcast(t),
        t is HeartbeatResp ==> !is_broadcast(t),
        t is AppEntries ==> !is_broadcast(t),
        t is AppEntriesResp ==> !is_broadcast(t),
{
}

/// A replica that has cast no vote and knows no leader may vote for any
/// candidate, whatever the candidate's term.
pub proof fn lemma_free_replica_may_vote(v: RaftView, from: u64, term: TermId)
    requires
        v.vote_for == NONE,
        v.leader == NONE,
    ensures
        can_vote(v, from, term),
{
}

/// A replica may always vote again for the node it voted for, and for any
/// node asking in a later term than its own.
pub proof fn lemma_may_vote_again_or_later(v: RaftView, from: u64, term: TermId)
    ensures
        v.vote_for == from ==> can_vote(v, from, term),
        term > v.current_term ==> can_vote(v, from, term),
{
}

/// A replica that voted for another node, or that knows a leader, does not
/// vote for a new node asking in its own term or an earlier one.
pub proof fn lemma_bound_replica_refuses(v: RaftView, from: u64, term: TermId)
    requires
        v.vote_for != from,
        v.vote_for != NONE || v.leader != NONE,
        term <= v.current_term,
    ensures
        !can_vote(v, from, term),
{
}

/// A candidate that has cast no vote, knows no leader and holds entries
/// grants its vote to a request whose log ends at a later term, or at the
/// same term and no earlier index, than its own last entry.
pub proof fn lemma_free_candidate_grants_up_to_date_request(
    v: RaftView,
    m: MessageView,
    w: RaftView,
    out: StepOutcome,
    last_log_index: LogIndex,
    last_log_term: TermId,
)
    requires
        v.state == StateType::Candidate,
        v.vote_for == NONE,
        v.leader == NONE,
        v.log.len() > 0,
        m.msg_type == (MessageTypeView::Vote { last_log_index, last_log_term }),
        last_log_term > v.log.last().term || (last_log_term == v.log.last().term
            && last_log_index >= v.log.last().index),
        raft_step(v, m, w, out),
    ensures
        w == v,
        out == StepOutcome::Ok(
            Some(
                MessageView {
                    msg_type: MessageTypeView::VoteRsp { granted: true },
                    from: v.id,
                    to: seq![m.from],
                    term: v.current_term,
                },
            ),
        ),
{
}

/// A follower appends the entries sent in its own term or a later one,
/// whichever leader it follows, and answers so; entries from an earlier term
/// leave its log as it was.
pub proof fn lemma_follower_appends_current_entries(
    v: RaftView,
    m: MessageView,
    w: RaftView,
    out: StepOutcome,
    entries: Seq<EntryView>,
)
    requires
        v.state == StateType::Follower,
        m.msg_type == (MessageTypeView::AppEntries { entries }),
        raft_step(v, m, w, out),
    ensures
        m.term >= v.current_term ==> w.log == v.log + entries,
        m.term >= v.current_term ==> out == StepOutcome::Ok(
            Some(
                MessageView {
                    msg_type: MessageTypeView::AppEntriesResp { rejected: true },
                    from: v.id,
                    to: seq![m.from],
                    term: v.current_term,
                },
            ),
        ),
        m.term < v.current_term ==> w.log == v.log,
        m.term < v.current_term ==> out == StepOutcome::Ok(
            Some(
                MessageView {
                    msg_type: MessageTypeView::AppEntriesResp { rejected: false },
                    from: v.id,
                    to: seq![m.from],
                    term: v.current_term,
                },
            ),
        ),
        w.state == StateType::Follower,
        w.current_term == v.current_term,
        w.leader == v.leader,
        w.votes == v.votes,
{
}

/// A candidate that receives entries steps down: it follows the sender, takes
/// the later of the two terms, forgets the votes it counted, restarts its
/// timer and appends the entries.
pub proof fn lemma_candidate_steps_down_on_entries(
    v: RaftView,
    m: MessageView,
    w: RaftView,
    out: StepOutcome,
    entries: Seq<EntryView>,
)
    requires
        v.state == StateType::Candidate,
        m.msg_type == (MessageTypeView::AppEntries { entries }),
        raft_step(v, m, w, out),
    ensures
        w.state == StateType::Follower,
        w.leader == m.from,
        w.current_term == (if m.term >= v.current_term { m.term } else { v.current_term }),
        w.votes == Map::<u64, bool>::empty(),
        w.elapsed == 0,
        w.random_timeout < v.election_timeout,
        w.log == v.log + entries,
        out == StepOutcome::Ok(None),
{
}

/// A follower that receives a heartbeat restarts its election timer; when
/// the heartbeat is from its own term or a later one it also follows the
/// sender, takes that term and forgets the votes it counted, and otherwise
/// keeps its leader, term and votes.
pub proof fn lemma_follower_heartbeat(v: RaftView, m: MessageView, w: RaftView, out: StepOutcome)
    requires
        v.state == StateType::Follower,
        m.msg_type == MessageTypeView::Heartbeat,
        raft_step(v, m, w, out),
    ensures
        w.state == StateType::Follower,
        w.elapsed == 0,
        w.random_timeout < v.election_timeout,
        w.log == v.log,
        m.term >= v.current_term ==> w.leader == m.from && w.current_term == m.term && w.votes
            == Map::<u64, bool>::empty(),
        m.term < v.current_term ==> w.leader == v.leader && w.current_term == v.current_term
            && w.votes == v.votes,
{
}

} // verus!
