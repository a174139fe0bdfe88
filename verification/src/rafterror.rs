use vstd::prelude::*;

use crate::message::{MessageType, MessageTypeView};

verus! {

/// Why a replica could not handle a message.
pub enum RaftError {
    /// The replica does not know a peer with this id.
    MissPeer(u64),
    /// The replica's current role has no handler for this kind of message.
    NotSupportedMessageType(MessageType),
}

/// What an error says, with the message kind taken by its view.
pub enum RaftErrorView {
    MissPeer(u64),
    NotSupportedMessageType(MessageTypeView),
}

impl View for RaftError {
    type V = RaftErrorView;

    open spec fn view(&self) -> RaftErrorView {
        match self {
            RaftError::MissPeer(id) => RaftErrorView::MissPeer(*id),
            RaftError::NotSupportedMessageType(t) => RaftErrorView::NotSupportedMessageType(t@),
        }
    }
}

} // verus!
