//! The core of a Raft replica: the vote and log rules, the message
//! handlers of each role, and the bookkeeping they rely on.

pub mod atomic;
pub mod message;
pub mod network;
pub mod progress;
pub mod rafterror;
pub mod storage;
pub mod type_def;
pub mod raftnode;
