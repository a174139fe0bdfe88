# raft

The core of a Raft replica, verified with Verus.

- `src/` holds the verified library: the election timer counter (`atomic`),
  log entries and the storage trait (`storage`), messages (`message`), peers
  (`network`), vote counting and follower progress (`progress`), errors
  (`rafterror`), the in-memory log (`raftnode/log.rs`) and the replica itself
  (`raftnode`), whose message handlers are specified as transitions over
  `RaftView` and whose laws (terms never go back, the log only grows, and a
  replica whose in-memory log holds entries votes only for candidates whose
  logs are at least as up to date) are proved as lemmas. With no entry in
  memory, the log's end is whatever the user's `Storage` reports, and nothing
  is stated of it.
- `app/` runs a replica: a TCP listener, the channels, the heartbeat timer and
  the event loop, with serde copies of the message types for the wire.
- `tests/` exercises the library on concrete values.
