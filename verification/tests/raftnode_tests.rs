use std::sync::Arc;

use raft::message::{Message, MessageType};
use raft::network::Peer;
use raft::progress::ProgressStatus;
use raft::rafterror::RaftError;
use raft::raftnode::{self, Config, Raft, StateType, NONE};
use raft::storage::{Entry, Storage};

struct InMemoryStorage {
    term: u64,
    index: u64,
}

impl InMemoryStorage {
    fn new() -> InMemoryStorage {
        InMemoryStorage { term: 0, index: 0 }
    }
}

impl Storage for InMemoryStorage {
    fn append(&self, _entries: Vec<Entry>) -> Result<(), RaftError> {
        Ok(())
    }

    fn last_term(&self) -> u64 {
        self.term
    }

    fn last_index(&self) -> u64 {
        self.index
    }
}

fn new_raft() -> Raft<InMemoryStorage> {
    let p = Peer::new(0, "localhost:8080", Vec::new());
    raftnode::new_raft(
        0,
        Config::new(8080, 100, 10),
        Arc::new(InMemoryStorage::new()),
        Vec::from([p]),
    )
}

fn to_one(id: u64) -> Vec<u64> {
    Vec::from([id])
}

#[test]
fn test_heartbeat() {
    let mut raft = new_raft();

    let msg = Message::new(MessageType::Heartbeat, 2, Vec::new(), 1);
    let step = raft.step(msg);

    assert!(step.is_ok());
    assert_eq!(raft.current_term(), 1);
    assert_eq!(raft.state(), StateType::Follower);
    assert_eq!(raft.leader(), 2)
}

#[test]
fn new_raft_starts_as_follower_with_sorted_peers() {
    let peers = Vec::from([
        Peer::new(3, "c:1", Vec::new()),
        Peer::new(1, "a:1", Vec::new()),
        Peer::new(2, "b:1", Vec::new()),
        Peer::new(1, "a:2", Vec::new()),
    ]);
    let raft = raftnode::new_raft(
        1,
        Config::new(9000, 10, 5),
        Arc::new(InMemoryStorage { term: 4, index: 7 }),
        peers,
    );
    let ids: Vec<u64> = raft.peers().iter().map(|p| p.id()).collect();
    assert_eq!(ids, vec![1, 1, 2, 3]);
    let urls: Vec<String> = raft.peers().iter().map(|p| p.url().clone()).collect();
    assert_eq!(urls, vec!["a:1".to_string(), "a:2".to_string(), "b:1".to_string(), "c:1".to_string()]);
    assert_eq!(raft.state(), StateType::Follower);
    assert!(raft.is_follower());
    assert!(!raft.is_leader());
    assert!(!raft.is_candidate());
    assert_eq!(raft.current_term(), 0);
    assert_eq!(raft.leader(), NONE);
    assert_eq!(raft.node_id(), 1);
    assert_eq!(raft.election_elapsed(), 0);
    assert_eq!(raft.random_election_timeout(), 0);
    assert!(!raft.post_election_timeout());
    assert_eq!(raft.last_log_index(), 7);
    assert_eq!(raft.last_log_term(), 4);
    assert!(matches!(raft.progress_tracker().progress(&1).map(|p| p.status()), Some(ProgressStatus::Follower)));
}

#[test]
fn candidate_asks_all_peers_for_votes() {
    let peers = Vec::from([Peer::new(2, "b", Vec::new()), Peer::new(0, "a", Vec::new())]);
    let mut raft = raftnode::new_raft(
        0,
        Config::new(8080, 100, 10),
        Arc::new(InMemoryStorage { term: 3, index: 9 }),
        peers,
    );
    let vote = raft.become_candidate();
    assert!(raft.is_candidate());
    assert_eq!(raft.election_elapsed(), 0);
    assert!(raft.random_election_timeout() < 10);
    assert_eq!(vote.from(), 0);
    assert_eq!(vote.to(), &vec![0, 2]);
    assert_eq!(vote.term(), 0);
    assert!(matches!(vote.message_type(), MessageType::Vote { last_log_index: 9, last_log_term: 3 }));
}

#[test]
fn candidate_rejects_stale_heartbeat() {
    let mut raft = new_raft();
    raft.become_candidate();
    raft.step(Message::new(MessageType::AppEntries { entries: Vec::new() }, 5, Vec::new(), 4)).ok();
    assert!(raft.is_follower());
    assert_eq!(raft.current_term(), 4);
    raft.become_candidate();
    let answer = raft.step(Message::new(MessageType::Heartbeat, 7, Vec::new(), 2));
    let answer = match answer {
        Ok(Some(m)) => m,
        _ => panic!("a candidate answers a heartbeat"),
    };
    assert!(matches!(
        answer.message_type(),
        MessageType::HeartbeatResp { status: ProgressStatus::Follower, reject: true }
    ));
    assert_eq!(answer.to(), &to_one(7));
    assert_eq!(answer.term(), 4);
    assert!(raft.is_candidate());
}

#[test]
fn candidate_counts_votes() {
    let mut raft = new_raft();
    raft.become_candidate();
    let r = raft.step(Message::new(MessageType::VoteRsp { granted: true }, 0, Vec::new(), 0));
    assert!(matches!(r, Ok(None)));
    let tally = raft.progress_tracker().tally_votes();
    assert_eq!(tally.granted(), 1);
    assert_eq!(tally.rejected(), 0);
    assert_eq!(tally.status(), raft::progress::VoteQuorum::Won);
    assert!(raft.is_candidate());
}

#[test]
fn candidate_follows_sender_of_entries() {
    let mut raft = new_raft();
    raft.become_candidate();
    let entries = Vec::from([Entry::new(3, 1, vec![1, 2]), Entry::new(3, 2, vec![3])]);
    let r = raft.step(Message::new(MessageType::AppEntries { entries }, 4, Vec::new(), 3));
    assert!(matches!(r, Ok(None)));
    assert!(raft.is_follower());
    assert_eq!(raft.leader(), 4);
    assert_eq!(raft.current_term(), 3);
    assert_eq!(raft.last_log_index(), 2);
    assert_eq!(raft.last_log_term(), 3);
    assert!(raft.random_election_timeout() < 10);
}

#[test]
fn candidate_grants_vote_to_up_to_date_log() {
    let mut raft = new_raft();
    raft.become_candidate();
    let r = raft.step(Message::new(
        MessageType::Vote { last_log_index: 0, last_log_term: 0 },
        6,
        Vec::new(),
        1,
    ));
    match r {
        Ok(Some(m)) => {
            assert!(matches!(m.message_type(), MessageType::VoteRsp { granted: true }));
            assert_eq!(m.to(), &to_one(6));
            assert_eq!(m.from(), 0);
        }
        _ => panic!("a candidate answers a request for votes"),
    }
}

#[test]
fn candidate_refuses_vote_to_stale_log() {
    let mut raft = raftnode::new_raft(
        0,
        Config::new(8080, 100, 10),
        Arc::new(InMemoryStorage { term: 5, index: 10 }),
        Vec::from([Peer::new(0, "a", Vec::new())]),
    );
    raft.become_candidate();
    let r = raft.step(Message::new(
        MessageType::Vote { last_log_index: 20, last_log_term: 4 },
        6,
        Vec::new(),
        1,
    ));
    match r {
        Ok(Some(m)) => assert!(matches!(m.message_type(), MessageType::VoteRsp { granted: false })),
        _ => panic!("a candidate answers a request for votes"),
    }
}

#[test]
fn candidate_refuses_vote_once_a_leader_is_known() {
    let mut raft = new_raft();
    raft.step(Message::new(MessageType::Heartbeat, 2, Vec::new(), 1)).ok();
    raft.become_candidate();
    let r = raft.step(Message::new(
        MessageType::Vote { last_log_index: 9, last_log_term: 9 },
        6,
        Vec::new(),
        1,
    ));
    match r {
        Ok(Some(m)) => assert!(matches!(m.message_type(), MessageType::VoteRsp { granted: false })),
        _ => panic!("a candidate answers a request for votes"),
    }
    assert!(raft.can_vote(6, 2));
    assert!(raft.can_vote(NONE, 1));
    assert!(!raft.can_vote(6, 1));
}

#[test]
fn candidate_refuses_answers_to_entries() {
    let mut raft = new_raft();
    raft.become_candidate();
    let r = raft.step(Message::new(MessageType::AppEntriesResp { rejected: false }, 1, Vec::new(), 0));
    assert!(matches!(r, Err(RaftError::NotSupportedMessageType(MessageType::AppEntriesResp { rejected: false }))));
}

#[test]
fn follower_appends_entries_of_current_term() {
    let mut raft = new_raft();
    let entries = Vec::from([Entry::new(0, 5, Vec::new())]);
    let r = raft.step(Message::new(MessageType::AppEntries { entries }, 3, Vec::new(), 0));
    match r {
        Ok(Some(m)) => {
            assert!(matches!(m.message_type(), MessageType::AppEntriesResp { rejected: true }));
            assert_eq!(m.to(), &to_one(3));
        }
        _ => panic!("a follower answers entries"),
    }
    assert_eq!(raft.last_log_index(), 5);
}

#[test]
fn follower_ignores_entries_of_earlier_term() {
    let mut raft = new_raft();
    raft.step(Message::new(MessageType::Heartbeat, 2, Vec::new(), 3)).ok();
    let entries = Vec::from([Entry::new(1, 5, Vec::new())]);
    let r = raft.step(Message::new(MessageType::AppEntries { entries }, 3, Vec::new(), 2));
    match r {
        Ok(Some(m)) => assert!(matches!(m.message_type(), MessageType::AppEntriesResp { rejected: false })),
        _ => panic!("a follower answers entries"),
    }
    assert_eq!(raft.last_log_index(), 0);
}

#[test]
fn follower_heartbeat_never_lowers_term() {
    let mut raft = new_raft();
    raft.step(Message::new(MessageType::Heartbeat, 2, Vec::new(), 5)).ok();
    let r = raft.step(Message::new(MessageType::Heartbeat, 3, Vec::new(), 1));
    assert_eq!(raft.current_term(), 5);
    assert_eq!(raft.leader(), 2);
    assert!(raft.is_follower());
    match r {
        Ok(Some(m)) => {
            assert!(matches!(
                m.message_type(),
                MessageType::HeartbeatResp { status: ProgressStatus::Follower, reject: false }
            ));
            assert_eq!(m.term(), 5);
        }
        _ => panic!("a follower answers a heartbeat"),
    }
}

#[test]
fn follower_follows_heartbeat_of_same_term() {
    let mut raft = new_raft();
    raft.step(Message::new(MessageType::Heartbeat, 2, Vec::new(), 5)).ok();
    raft.step(Message::new(MessageType::Heartbeat, 4, Vec::new(), 5)).ok();
    assert_eq!(raft.current_term(), 5);
    assert_eq!(raft.leader(), 4);
}

#[test]
fn follower_refuses_vote_answers() {
    let mut raft = new_raft();
    let r = raft.step(Message::new(MessageType::VoteRsp { granted: true }, 1, Vec::new(), 0));
    assert!(matches!(r, Err(RaftError::NotSupportedMessageType(MessageType::VoteRsp { granted: true }))));
}

#[test]
fn idle_follower_without_timeout_waits() {
    let mut raft = new_raft();
    assert!(raft.on_inbox_empty().is_none());
    assert!(raft.is_follower());
    assert!(raft.on_heartbeat_tick().is_none());
    assert_eq!(raft.election_elapsed(), 0);
}

#[test]
fn internal_messages_are_broadcast_through_own_peer() {
    let raft = raftnode::new_raft(
        1,
        Config::new(8080, 100, 10),
        Arc::new(InMemoryStorage::new()),
        Vec::from([Peer::new(2, "b", Vec::new()), Peer::new(1, "a", Vec::new())]),
    );
    let vote = Message::new(MessageType::Vote { last_log_index: 0, last_log_term: 0 }, 1, vec![1, 2], 0);
    match raft.send_internal_to_peers(&vote) {
        Ok(Some(p)) => assert_eq!(p.url(), "a"),
        _ => panic!("requests for votes are broadcast"),
    }
    let heartbeat = Message::new(MessageType::Heartbeat, 1, vec![1, 2], 0);
    assert!(matches!(raft.send_internal_to_peers(&heartbeat), Ok(Some(_))));
    let answer = Message::new(MessageType::VoteRsp { granted: true }, 1, vec![2], 0);
    assert!(matches!(raft.send_internal_to_peers(&answer), Ok(None)));
    assert_eq!(raft.get_peer(&2).map(|p| p.url().clone()), Some("b".to_string()));
    assert!(raft.get_peer(&3).is_none());
}

#[test]
fn internal_messages_fail_without_own_peer() {
    let raft = raftnode::new_raft(
        9,
        Config::new(8080, 100, 10),
        Arc::new(InMemoryStorage::new()),
        Vec::from([Peer::new(2, "b", Vec::new())]),
    );
    let heartbeat = Message::new(MessageType::Heartbeat, 9, vec![2], 0);
    assert!(matches!(raft.send_internal_to_peers(&heartbeat), Err(RaftError::MissPeer(9))));
}

#[test]
fn config_keeps_its_settings() {
    let c = Config::new(8080, 100, 3);
    assert_eq!(c.port(), 8080);
    assert_eq!(c.channel_buf_size(), 100);
    assert_eq!(c.election_timeout(), 3);
    assert_eq!(c.heartbeat_interval(), 3);
}

#[test]
fn vote_for_self_names_log_end() {
    let raft = raftnode::new_raft(
        0,
        Config::new(8080, 100, 10),
        Arc::new(InMemoryStorage { term: 2, index: 8 }),
        Vec::from([Peer::new(0, "a", Vec::new()), Peer::new(4, "d", Vec::new())]),
    );
    let m = raft.vote_for_self();
    assert!(matches!(m.message_type(), MessageType::Vote { last_log_index: 8, last_log_term: 2 }));
    assert_eq!(m.to(), &vec![0, 4]);
}
