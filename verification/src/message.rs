use vstd::prelude::*;

use crate::progress::ProgressStatus;
use crate::storage::{Entry, EntryView};
use crate::type_def::{LogIndex, TermId};

verus! {

/// The kinds of message that replicas exchange, with what each carries.
pub enum MessageType {
    VoteRsp { granted: bool },
    Heartbeat,
    HeartbeatResp { status: ProgressStatus, reject: bool },
    AppEntries { entries: Vec<Entry> },
    AppEntriesResp { rejected: bool },
    Vote { last_log_index: LogIndex, last_log_term: TermId },
}

/// What a message of each kind carries, with entries taken by their view.
pub enum MessageTypeView {
    VoteRsp { granted: bool },
    Heartbeat,
    HeartbeatResp { status: ProgressStatus, reject: bool },
    AppEntries { entries: Seq<EntryView> },
    AppEntriesResp { rejected: bool },
    Vote { last_log_index: LogIndex, last_log_term: TermId },
}

/// The views of a sequence of entries.
pub open spec fn entries_view(entries: Seq<Entry>) -> Seq<EntryView> {
    entries.map_values(|e: Entry| e@)
}

impl View for MessageType {
    type V = MessageTypeView;

    open spec fn view(&self) -> MessageTypeView {
        match self {
            MessageType::VoteRsp { granted } => MessageTypeView::VoteRsp { granted: *granted },
            MessageType::Heartbeat => MessageTypeView::Heartbeat,
            MessageType::HeartbeatResp { status, reject } => MessageTypeView::HeartbeatResp {
                status: *status,
                reject: *reject,
            },
            MessageType::AppEntries { entries } => MessageTypeView::AppEntries {
                entries: entries_view(entries@),
            },
            MessageType::AppEntriesResp { rejected } => MessageTypeView::AppEntriesResp {
                rejected: *rejected,
            },
            MessageType::Vote { last_log_index, last_log_term } => MessageTypeView::Vote {
                last_log_index: *last_log_index,
                last_log_term: *last_log_term,
            },
        }
    }
}

impl Clone for MessageType {
    fn clone(&self) -> (t: MessageType)
        ensures
            t@ == self@,
    {
        match self {
            MessageType::VoteRsp { granted } => MessageType::VoteRsp { granted: *granted },
            MessageType::Heartbeat => MessageType::Heartbeat,
            MessageType::HeartbeatResp { status, reject } => MessageType::HeartbeatResp {
                status: *status,
                reject: *reject,
            },
            MessageType::AppEntries { entries } => {
                let copy = entries.clone();
                proof {
                    assert(entries_view(copy@) =~= entries_view(entries@));
                }
                MessageType::AppEntries { entries: copy }
            },
            MessageType::AppEntriesResp { rejected } => MessageType::AppEntriesResp {
                rejected: *rejected,
            },
            MessageType::Vote { last_log_index, last_log_term } => MessageType::Vote {
                last_log_index: *last_log_index,
                last_log_term: *last_log_term,
            },
        }
    }
}

/// What a message holds: its kind, sender, receivers and term.
pub struct MessageView {
    pub msg_type: MessageTypeView,
    pub from: u64,
    pub to: Seq<u64>,
    pub term: TermId,
}

/// A message between replicas.
pub struct Message {
    msg_type: MessageType,
    from: u64,
    to: Vec<u64>,
    term: TermId,
}

impl View for Message {
    type V = MessageView;

    open spec fn view(&self) -> MessageView {
        MessageView {
            msg_type: self.spec_type()@,
            from: self.spec_from(),
            to: self.spec_to(),
            term: self.spec_term(),
        }
    }
}

impl Message {
    /// The kind of the message, with its payload.
    pub closed spec fn spec_type(&self) -> MessageType {
        self.msg_type
    }

    pub closed spec fn spec_from(&self) -> u64 {
        self.from
    }

    pub closed spec fn spec_to(&self) -> Seq<u64> {
        self.to@
    }

    pub closed spec fn spec_term(&self) -> TermId {
        self.term
    }

    pub fn new(msg_type: MessageType, from: u64, to: Vec<u64>, term: TermId) -> (m: Message)
        ensures
            m.spec_type() == msg_type,
            m@ == (MessageView { msg_type: msg_type@, from, to: to@, term }),
    {
        Message { msg_type, from, to, term }
    }

    pub fn message_type(&self) -> (t: MessageType)
        ensures
            t@ == self@.msg_type,
    {
        self.msg_type.clone()
    }

    pub fn term(&self) -> (t: TermId)
        ensures
            t == self@.term,
    {
        self.term
    }

    pub fn from(&self) -> (f: u64)
        ensures
            f == self@.from,
    {
        self.from
    }

    /// The ids of the nodes the message is addressed to.
    pub fn to(&self) -> (t: &Vec<u64>)
        ensures
            t@ == self@.to,
    {
        &self.to
    }

    /// Takes the message apart into its kind, sender, receivers and term.
    pub fn into_parts(self) -> (parts: (MessageType, u64, Vec<u64>, TermId))
        ensures
            parts.0 == self.spec_type(),
            parts.1 == self@.from,
            parts.2@ == self@.to,
            parts.3 == self@.term,
    {
        (self.msg_type, self.from, self.to, self.term)
    }
}

} // verus!
