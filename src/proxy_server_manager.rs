//! The upstream session: the proxy acting as a client toward the upstream
//! server on behalf of one client session.

use vstd::prelude::*;
use crate::framing::FrameDecode;
use crate::manager::{HandlerMessage, MessageModel};
use crate::packets::{HandshakePacket, LoginStartPacket};
use crate::pipeline::{client_bound_of_frame, server_bound_frame, HandlerPipeline};
use crate::protocol::Protocol;
use crate::wire_codec::{ClientBound, PacketClientEnum, PacketServerEnum, ServerBound};

verus! {

/// What the upstream session asks its runtime to do.
pub enum UpstreamAction {
    /// Write these bytes to the upstream socket.
    SendToServer(Vec<u8>),
    /// Deliver this message to the client session.
    ToClient(HandlerMessage<PacketServerEnum>),
    /// Close the upstream socket.
    Close,
}

/// Abstract action.
pub enum UpstreamEffect {
    SendToServer(Seq<u8>),
    ToClient(MessageModel<ClientBound>),
    Close,
}

impl View for UpstreamAction {
    type V = UpstreamEffect;

    open spec fn view(&self) -> UpstreamEffect {
        match self {
            UpstreamAction::SendToServer(b) => UpstreamEffect::SendToServer(b@),
            UpstreamAction::ToClient(m) => UpstreamEffect::ToClient(m@),
            UpstreamAction::Close => UpstreamEffect::Close,
        }
    }
}

pub open spec fn upstream_effects(v: Seq<UpstreamAction>) -> Seq<UpstreamEffect> {
    v.map_values(|a: UpstreamAction| a@)
}

/// The bytes that open an upstream login: the client's handshake under
/// the Handshake protocol, then its login start under Login.
pub open spec fn login_opening(
    threshold: Option<usize>,
    handshake: ServerBound,
    login: ServerBound,
) -> Option<Seq<u8>> {
    match (
        server_bound_frame(Protocol::Handshake, threshold, handshake),
        server_bound_frame(Protocol::Login, threshold, login),
    ) {
        (Some(a), Some(b)) => Some(a + b),
        _ => None,
    }
}

/// The upstream session of one proxied client.
pub struct ProxyServerManager {
    pipeline: HandlerPipeline,
}

impl ProxyServerManager {
    pub closed spec fn protocol(&self) -> Protocol {
        self.pipeline.current_protocol()
    }

    pub closed spec fn threshold(&self) -> Option<usize> {
        self.pipeline.threshold()
    }

    pub closed spec fn pending(&self) -> Seq<u8> {
        self.pipeline.pending()
    }

    /// A session on a fresh connection: Handshake, no compression.
    pub fn new() -> (r: ProxyServerManager)
        ensures
            r.protocol() == Protocol::Handshake,
            r.threshold() is None,
            r.pending() == Seq::<u8>::empty(),
    {
        ProxyServerManager { pipeline: HandlerPipeline::new() }
    }

    /// Adds bytes read from the upstream socket.
    pub fn receive(&mut self, data: &[u8])
        ensures
            final(self).pending() == old(self).pending() + data@,
            final(self).protocol() == old(self).protocol(),
            final(self).threshold() == old(self).threshold(),
    {
        self.pipeline.push_bytes(data);
    }

    /// The next packet from the upstream server, if a whole frame is there.
    pub fn next_packet(&mut self) -> (r: Result<Option<PacketServerEnum>, ()>)
        ensures
            final(self).protocol() == old(self).protocol(),
            final(self).threshold() == old(self).threshold(),
            match crate::framing::decode_frame(old(self).pending()) {
                FrameDecode::Frame { body, rest } => final(self).pending() == rest && match
                    client_bound_of_frame(old(self).protocol(), old(self).threshold(), body) {
                    Some(m) => r matches Ok(Some(p)) && p@ == m,
                    None => r is Err,
                },
                FrameDecode::NeedMore => r matches Ok(None) && final(self).pending() == old(
                    self,
                ).pending(),
                FrameDecode::Malformed => r is Err && final(self).pending() == old(self).pending(),
            },
    {
        self.pipeline.try_read_client_bound()
    }

    /// Opens the login toward the upstream: sends the client's handshake,
    /// switches to Login, sends the login start; the bytes to write.
    pub fn start(&mut self, handshake: HandshakePacket, login: LoginStartPacket) -> (r: Result<
        Vec<u8>,
        (),
    >)
        ensures
            final(self).protocol() == Protocol::Login,
            final(self).threshold() == old(self).threshold(),
            final(self).pending() == old(self).pending(),
            match login_opening(
                old(self).threshold(),
                ServerBound::Handshake(handshake@),
                ServerBound::LoginStart(login.name@),
            ) {
                Some(b) => r matches Ok(v) && v@ == b,
                None => r is Err,
            },
    {
        self.pipeline.set_protocol(Protocol::Handshake);
        let hs = PacketClientEnum::Handshake(handshake);
        let first = self.pipeline.encode_server_bound(&hs);
        self.pipeline.set_protocol(Protocol::Login);
        let ls = PacketClientEnum::LoginStart(login);
        let second = self.pipeline.encode_server_bound(&ls);
        match (first, second) {
            (Ok(mut a), Ok(b)) => {
                crate::buffer::write_raw_bytes(&mut a, b.as_slice());
                Ok(a)
            },
            _ => Err(()),
        }
    }

    /// Reacts to a packet from the upstream server (or a failure to read
    /// one). Every packet goes on to the client unchanged; a compression
    /// packet first switches this pipeline's compression and then has the
    /// client's switched the same way; a login success switches this
    /// pipeline to Play and then the client's.
    pub fn handle(&mut self, packet: Result<PacketServerEnum, ()>) -> (r: Vec<UpstreamAction>)
        ensures
            final(self).pending() == old(self).pending(),
            match packet {
                Err(_) => upstream_effects(r@) == seq![UpstreamEffect::Close]
                    && final(self).protocol() == old(self).protocol()
                    && final(self).threshold() == old(self).threshold(),
                Ok(PacketServerEnum::Compression(c)) => upstream_effects(r@) == seq![
                    UpstreamEffect::ToClient(MessageModel::SendPacket(packet->Ok_0@)),
                    UpstreamEffect::ToClient(MessageModel::EnableCompression(c.size_limit)),
                ] && final(self).threshold() == c.size_limit && final(self).protocol() == old(
                    self,
                ).protocol(),
                Ok(PacketServerEnum::LoginSuccess(_)) => upstream_effects(r@) == seq![
                    UpstreamEffect::ToClient(MessageModel::SendPacket(packet->Ok_0@)),
                    UpstreamEffect::ToClient(MessageModel::SetProtocol(Protocol::Play)),
                ] && final(self).protocol() == Protocol::Play && final(self).threshold() == old(
                    self,
                ).threshold(),
                Ok(p) => upstream_effects(r@) == seq![
                    UpstreamEffect::ToClient(MessageModel::SendPacket(p@)),
                ] && final(self).protocol() == old(self).protocol() && final(self).threshold()
                    == old(self).threshold(),
            },
    {
        let mut actions: Vec<UpstreamAction> = Vec::new();
        match packet {
            Err(()) => {
                actions.push(UpstreamAction::Close);
            },
            Ok(packet) => {
                match &packet {
                    PacketServerEnum::Compression(c) => {
                        let size_limit = c.size_limit;
                        self.pipeline.enable_compression(size_limit);
                        actions.push(
                            UpstreamAction::ToClient(HandlerMessage::SendPacket(packet)),
                        );
                        actions.push(
                            UpstreamAction::ToClient(HandlerMessage::EnableCompression(size_limit)),
                        );
                    },
                    PacketServerEnum::LoginSuccess(_) => {
                        self.pipeline.set_protocol(Protocol::Play);
                        actions.push(
                            UpstreamAction::ToClient(HandlerMessage::SendPacket(packet)),
                        );
                        actions.push(
                            UpstreamAction::ToClient(HandlerMessage::SetProtocol(Protocol::Play)),
                        );
                    },
                    _ => {
                        actions.push(
                            UpstreamAction::ToClient(HandlerMessage::SendPacket(packet)),
                        );
                    },
                }
            },
        }
        assert(upstream_effects(actions@) =~= actions@.map_values(|a: UpstreamAction| a@));
        actions
    }

    /// Carries out a message from the client session: a packet is encoded
    /// for the upstream (a packet that cannot be closes the connection),
    /// protocol and compression changes apply to this pipeline, a
    /// disconnect closes the connection.
    pub fn handle_message(&mut self, message: HandlerMessage<PacketClientEnum>) -> (r: Vec<
        UpstreamAction,
    >)
        ensures
            final(self).pending() == old(self).pending(),
            match message {
                HandlerMessage::SendPacket(p) => final(self).protocol() == old(self).protocol()
                    && final(self).threshold() == old(self).threshold() && match server_bound_frame(
                    old(self).protocol(),
                    old(self).threshold(),
                    p@,
                ) {
                    Some(f) => upstream_effects(r@) == seq![UpstreamEffect::SendToServer(f)],
                    None => upstream_effects(r@) == seq![UpstreamEffect::Close],
                },
                HandlerMessage::SetProtocol(p) => final(self).protocol() == p
                    && final(self).threshold() == old(self).threshold() && r@.len() == 0,
                HandlerMessage::EnableCompression(l) => final(self).threshold() == l
                    && final(self).protocol() == old(self).protocol() && r@.len() == 0,
                HandlerMessage::Disconnect => final(self).protocol() == old(self).protocol()
                    && final(self).threshold() == old(self).threshold() && upstream_effects(r@)
                    == seq![UpstreamEffect::Close],
            },
    {
        let mut actions: Vec<UpstreamAction> = Vec::new();
        match message {
            HandlerMessage::SendPacket(p) => {
                match self.pipeline.encode_server_bound(&p) {
                    Ok(bytes) => actions.push(UpstreamAction::SendToServer(bytes)),
                    Err(()) => actions.push(UpstreamAction::Close),
                }
            },
            HandlerMessage::SetProtocol(p) => self.pipeline.set_protocol(p),
            HandlerMessage::EnableCompression(l) => self.pipeline.enable_compression(l),
            HandlerMessage::Disconnect => actions.push(UpstreamAction::Close),
        }
        assert(upstream_effects(actions@) =~= actions@.map_values(|a: UpstreamAction| a@));
        actions
    }

    /// The upstream connection ended: the client session is told to
    /// disconnect.
    pub fn finished(&self) -> (r: Vec<UpstreamAction>)
        ensures
            upstream_effects(r@) == seq![UpstreamEffect::ToClient(MessageModel::Disconnect)],
    {
        let mut actions: Vec<UpstreamAction> = Vec::new();
        actions.push(UpstreamAction::ToClient(HandlerMessage::Disconnect));
        assert(upstream_effects(actions@) =~= actions@.map_values(|a: UpstreamAction| a@));
        actions
    }
}

} // verus!
