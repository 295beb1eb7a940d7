//! Control messages that the two sessions of a proxied pair send each other.

use vstd::prelude::*;
use crate::protocol::Protocol;

verus! {

/// A message to a session about its own connection: send a packet,
/// change the sub-protocol, change compression, or disconnect.
pub enum HandlerMessage<P> {
    SendPacket(P),
    SetProtocol(Protocol),
    EnableCompression(Option<usize>),
    Disconnect,
}

/// Abstract message.
pub enum MessageModel<V> {
    SendPacket(V),
    SetProtocol(Protocol),
    EnableCompression(Option<usize>),
    Disconnect,
}

impl<P: View> View for HandlerMessage<P> {
    type V = MessageModel<P::V>;

    open spec fn view(&self) -> MessageModel<P::V> {
        match self {
            HandlerMessage::SendPacket(p) => MessageModel::SendPacket(p@),
            HandlerMessage::SetProtocol(p) => MessageModel::SetProtocol(*p),
            HandlerMessage::EnableCompression(l) => MessageModel::EnableCompression(*l),
            HandlerMessage::Disconnect => MessageModel::Disconnect,
        }
    }
}

} // verus!
