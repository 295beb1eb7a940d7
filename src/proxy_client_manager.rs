//! The client session: reads the handshake, routes it, answers status
//! through a probe, opens the upstream session on login and then forwards
//! Play traffic.

use vstd::prelude::*;
use crate::buffer::{lemma_u64_round_trip, u64_bytes};
use crate::framing::{decode_frame, frame_bytes, lemma_frame_round_trip, FrameDecode};
use crate::manager::{HandlerMessage, MessageModel};
use crate::packets::{HandshakeModel, HandshakePacket, LoginStartPacket, PongPacket, StatusResponsePacket};
use crate::pipeline::{
    client_bound_frame, client_bound_of_frame, server_bound_of_frame, HandlerPipeline,
};
use crate::protocol::Protocol;
use crate::server_state::{table_add_player, table_remove_player, Configuration, SocketAddress};
use crate::wire_codec::{ClientBound, PacketClientEnum, PacketServerEnum, ServerBound};

verus! {

/// Where a client session stands.
#[derive(Debug, Clone, Copy, PartialEq, Eq, Structural)]
pub enum ClientPhase {
    AwaitHandshake,
    AwaitStatus,
    AwaitLogin,
    Forwarding,
    Closed,
}

/// What the client session asks its runtime to do.
pub enum ClientAction {
    /// Write these bytes to the client socket.
    SendToClient(Vec<u8>),
    /// Run a status probe against this upstream and report its outcome.
    FetchStatus(SocketAddress),
    /// Connect to this upstream, start an upstream session with the
    /// handshake and login start, and report whether that worked.
    OpenUpstream { address: SocketAddress, handshake: HandshakePacket, login: LoginStartPacket },
    /// Deliver this message to the upstream session.
    ToUpstream(HandlerMessage<PacketClientEnum>),
    /// Close the client socket.
    Close,
}

/// Abstract action.
pub enum ClientEffect {
    SendToClient(Seq<u8>),
    FetchStatus(SocketAddress),
    OpenUpstream { address: SocketAddress, handshake: HandshakeModel, login: Seq<char> },
    ToUpstream(MessageModel<ServerBound>),
    Close,
}

impl View for ClientAction {
    type V = ClientEffect;

    open spec fn view(&self) -> ClientEffect {
        match self {
            ClientAction::SendToClient(b) => ClientEffect::SendToClient(b@),
            ClientAction::FetchStatus(a) => ClientEffect::FetchStatus(*a),
            ClientAction::OpenUpstream { address, handshake, login } => ClientEffect::OpenUpstream {
                address: *address,
                handshake: handshake@,
                login: login.name@,
            },
            ClientAction::ToUpstream(m) => ClientEffect::ToUpstream(m@),
            ClientAction::Close => ClientEffect::Close,
        }
    }
}

pub open spec fn client_effects(v: Seq<ClientAction>) -> Seq<ClientEffect> {
    v.map_values(|a: ClientAction| a@)
}

/// The frame of a pong echoing `payload`, on a connection without
/// compression.
pub open spec fn pong_frame(payload: u64) -> Seq<u8> {
    frame_bytes(seq![1u8] + u64_bytes(payload))
}

/// For every payload: the pong frame answering a ping, read by the client
/// in Status without compression, is one whole frame carrying a pong with
/// that same payload.
pub proof fn lemma_pong_echoes_payload(payload: u64)
    ensures
        decode_frame(pong_frame(payload)) matches FrameDecode::Frame { body, rest } && rest.len()
            == 0 && client_bound_of_frame(Protocol::Status, None, body) == Some(
            ClientBound::Pong(payload),
        ),
{
    let body = seq![1u8] + u64_bytes(payload);
    lemma_frame_round_trip(body, Seq::empty());
    assert(frame_bytes(body) + Seq::<u8>::empty() =~= frame_bytes(body));
    lemma_u64_round_trip(payload, Seq::empty());
    assert(body.skip(1) =~= u64_bytes(payload) + Seq::<u8>::empty());
}

/// The pongs answering `payloads`, in order.
pub open spec fn pong_effects(payloads: Seq<u64>) -> Seq<ClientEffect> {
    payloads.map_values(|v: u64| ClientEffect::SendToClient(pong_frame(v)))
}

/// The session of one client connection.
pub struct ProxyClientManager {
    pipeline: HandlerPipeline,
    phase: ClientPhase,
    handshake: Option<HandshakePacket>,
    connection_host: Option<String>,
    upstream_host: Option<SocketAddress>,
    name: Option<String>,
    registered: bool,
    upstream_attached: bool,
    status_pending: bool,
    held_pings: Vec<u64>,
}

impl ProxyClientManager {
    pub closed spec fn phase(&self) -> ClientPhase {
        self.phase
    }

    pub closed spec fn protocol(&self) -> Protocol {
        self.pipeline.current_protocol()
    }

    pub closed spec fn threshold(&self) -> Option<usize> {
        self.pipeline.threshold()
    }

    pub closed spec fn pending(&self) -> Seq<u8> {
        self.pipeline.pending()
    }

    /// The handshake kept until login is forwarded.
    pub closed spec fn handshake(&self) -> Option<HandshakeModel> {
        match self.handshake {
            Some(h) => Some(h@),
            None => None,
        }
    }

    /// The virtual hostname the client asked for, once routed.
    pub closed spec fn host(&self) -> Option<Seq<char>> {
        match self.connection_host {
            Some(h) => Some(h@),
            None => None,
        }
    }

    /// The upstream the hostname resolved to, once routed.
    pub closed spec fn upstream(&self) -> Option<SocketAddress> {
        self.upstream_host
    }

    /// The player name, once login started.
    pub closed spec fn player(&self) -> Option<Seq<char>> {
        match self.name {
            Some(n) => Some(n@),
            None => None,
        }
    }

    /// Whether the player name stands in the route's player list on this
    /// session's behalf.
    pub closed spec fn registered(&self) -> bool {
        self.registered
    }

    /// Whether an upstream session is attached.
    pub closed spec fn upstream_attached(&self) -> bool {
        self.upstream_attached
    }

    /// Whether a status probe is running for this session.
    pub closed spec fn status_pending(&self) -> bool {
        self.status_pending
    }

    /// Payloads of pings that arrived while the status probe was running,
    /// in arrival order; they are answered after the status response.
    pub closed spec fn held_pings(&self) -> Seq<u64> {
        self.held_pings@
    }

    /// What each phase guarantees of the rest of the state.
    pub closed spec fn wf(&self) -> bool {
        &&& self.phase == ClientPhase::AwaitHandshake ==> self.protocol() == Protocol::Handshake
            && self.threshold() is None && !self.registered && !self.status_pending
            && !self.upstream_attached
        &&& self.phase == ClientPhase::AwaitStatus ==> self.protocol() == Protocol::Status
            && self.threshold() is None && self.upstream_host is Some && !self.registered
            && !self.upstream_attached
        &&& self.phase == ClientPhase::AwaitLogin ==> self.protocol() == Protocol::Login
            && self.threshold() is None && self.handshake is Some && self.connection_host is Some
            && self.upstream_host is Some && !self.registered && !self.upstream_attached
        &&& self.registered ==> self.connection_host is Some && self.name is Some
        &&& self.held_pings@.len() > 0 ==> self.status_pending
    }

    /// A well-formed session that is registered has a routed host and a
    /// player name; one without a player name is not registered.
    pub proof fn lemma_registration_named(&self)
        requires
            self.wf(),
        ensures
            self.registered() ==> self.host() is Some && self.player() is Some,
            self.player() is None ==> !self.registered(),
    {
    }

    /// The registration fields are as in `other`.
    pub open spec fn same_registration(&self, other: &ProxyClientManager) -> bool {
        &&& self.registered() == other.registered()
        &&& self.host() == other.host()
        &&& self.player() == other.player()
        &&& self.upstream_attached() == other.upstream_attached()
    }

    /// The pipeline settings and the routing outcome are as in `other`.
    pub open spec fn same_codec_and_route(&self, other: &ProxyClientManager) -> bool {
        &&& self.protocol() == other.protocol()
        &&& self.threshold() == other.threshold()
        &&& self.upstream() == other.upstream()
        &&& self.handshake() == other.handshake()
    }

    /// A session on a freshly accepted connection.
    pub fn new() -> (r: ProxyClientManager)
        ensures
            r.wf(),
            r.phase() == ClientPhase::AwaitHandshake,
            r.protocol() == Protocol::Handshake,
            r.threshold() is None,
            r.pending() == Seq::<u8>::empty(),
            !r.registered(),
            !r.upstream_attached(),
            !r.status_pending(),
            r.held_pings() == Seq::<u64>::empty(),
            r.upstream() is None,
            r.host() is None,
            r.handshake() is None,
            r.player() is None,
    {
        ProxyClientManager {
            pipeline: HandlerPipeline::new(),
            phase: ClientPhase::AwaitHandshake,
            handshake: None,
            connection_host: None,
            upstream_host: None,
            name: None,
            registered: false,
            upstream_attached: false,
            status_pending: false,
            held_pings: Vec::new(),
        }
    }

    /// The phase the session is in.
    pub fn state(&self) -> (r: ClientPhase)
        ensures
            r == self.phase(),
    {
        self.phase
    }

    /// Adds bytes read from the client socket.
    pub fn receive(&mut self, data: &[u8])
        requires
            old(self).wf(),
        ensures
            final(self).wf(),
            final(self).pending() == old(self).pending() + data@,
            final(self).phase() == old(self).phase(),
            final(self).protocol() == old(self).protocol(),
            final(self).threshold() == old(self).threshold(),
            final(self).same_registration(old(self)),
    {
        self.pipeline.push_bytes(data);
    }

    /// The next packet from the client, if a whole frame is there.
    pub fn next_packet(&mut self) -> (r: Result<Option<PacketClientEnum>, ()>)
        requires
            old(self).wf(),
        ensures
            final(self).wf(),
            final(self).phase() == old(self).phase(),
            final(self).protocol() == old(self).protocol(),
            final(self).threshold() == old(self).threshold(),
            final(self).same_registration(old(self)),
            match crate::framing::decode_frame(old(self).pending()) {
                FrameDecode::Frame { body, rest } => final(self).pending() == rest && match
                    server_bound_of_frame(old(self).protocol(), old(self).threshold(), body) {
                    Some(m) => r matches Ok(Some(p)) && p@ == m,
                    None => r is Err,
                },
                FrameDecode::NeedMore => r matches Ok(None) && final(self).pending() == old(
                    self,
                ).pending(),
                FrameDecode::Malformed => r is Err && final(self).pending() == old(self).pending(),
            },
    {
        self.pipeline.try_read_server_bound()
    }

    fn close(&mut self, actions: &mut Vec<ClientAction>)
        requires
            old(self).wf(),
        ensures
            final(self).wf(),
            final(self).phase() == ClientPhase::Closed,
            final(self).protocol() == old(self).protocol(),
            final(self).threshold() == old(self).threshold(),
            final(self).pending() == old(self).pending(),
            final(self).same_registration(old(self)),
            final(self).status_pending() == old(self).status_pending(),
            final(self).held_pings() == old(self).held_pings(),
            final(self).handshake() == old(self).handshake(),
            final(self).upstream() == old(self).upstream(),
            final(actions)@ == old(actions)@.push(ClientAction::Close),
    {
        self.phase = ClientPhase::Closed;
        actions.push(ClientAction::Close);
    }

    /// Reacts to a packet from the client, or to a failure to read one.
    ///
    /// - A handshake, first, asking for Status or Login of a routed host:
    ///   the handshake and route are kept and the pipeline switches to the
    ///   protocol asked for; otherwise the connection closes.
    /// - A status request, once: a probe of the upstream is started.
    /// - A ping: a pong with the same payload is sent.
    /// - A login start, while the route exists: the name joins the route's
    ///   players and the upstream session is opened with the kept
    ///   handshake and the login start.
    /// - A Play packet after login: it goes to the upstream session.
    /// - Anything else, or a failure, closes the connection.
    pub fn handle(&mut self, config: &mut Configuration, packet: Result<PacketClientEnum, ()>) -> (r:
        Vec<ClientAction>)
        requires
            old(self).wf(),
        ensures
            final(self).wf(),
            final(self).pending() == old(self).pending(),
            !(old(self).phase() == ClientPhase::AwaitStatus && old(self).status_pending()
                && packet matches Ok(PacketClientEnum::Ping(_))) ==> final(self).held_pings()
                == old(self).held_pings(),
            match (old(self).phase(), packet) {
                (ClientPhase::AwaitHandshake, Ok(PacketClientEnum::Handshake(h))) => {
                    &&& final(config)@ == old(config)@
                    &&& !final(self).registered()
                    &&& !final(self).upstream_attached()
                    &&& if (h.next_protocol == Protocol::Status || h.next_protocol
                        == Protocol::Login) && old(config)@.contains_key(h.server_address@) {
                        &&& r@.len() == 0
                        &&& final(self).phase() == if h.next_protocol == Protocol::Status {
                            ClientPhase::AwaitStatus
                        } else {
                            ClientPhase::AwaitLogin
                        }
                        &&& final(self).protocol() == h.next_protocol
                        &&& final(self).threshold() is None
                        &&& !final(self).status_pending()
                        &&& final(self).handshake() == Some(h@)
                        &&& final(self).host() == Some(h.server_address@)
                        &&& final(self).upstream() == Some(
                            old(config)@[h.server_address@].upstream,
                        )
                    } else {
                        &&& client_effects(r@) == seq![ClientEffect::Close]
                        &&& final(self).phase() == ClientPhase::Closed
                        &&& final(self).same_codec_and_route(old(self))
                        &&& final(self).host() == old(self).host()
                    }
                },
                (ClientPhase::AwaitStatus, Ok(PacketClientEnum::StatusRequest(_))) => {
                    &&& final(config)@ == old(config)@
                    &&& final(self).same_registration(old(self))
                    &&& final(self).same_codec_and_route(old(self))
                    &&& if !old(self).status_pending() {
                        &&& client_effects(r@) == seq![
                            ClientEffect::FetchStatus(old(self).upstream()->0),
                        ]
                        &&& final(self).status_pending()
                        &&& final(self).phase() == ClientPhase::AwaitStatus
                        &&& final(self).protocol() == Protocol::Status
                    } else {
                        &&& client_effects(r@) == seq![ClientEffect::Close]
                        &&& final(self).phase() == ClientPhase::Closed
                    }
                },
                (ClientPhase::AwaitStatus, Ok(PacketClientEnum::Ping(q))) => {
                    &&& final(config)@ == old(config)@
                    &&& final(self).same_registration(old(self))
                    &&& if old(self).status_pending() {
                        &&& r@.len() == 0
                        &&& final(self).held_pings() == old(self).held_pings().push(q.payload)
                    } else {
                        &&& client_effects(r@) == seq![
                            ClientEffect::SendToClient(pong_frame(q.payload)),
                        ]
                        &&& final(self).held_pings() == old(self).held_pings()
                    }
                    &&& final(self).phase() == ClientPhase::AwaitStatus
                    &&& final(self).status_pending() == old(self).status_pending()
                    &&& final(self).same_codec_and_route(old(self))
                },
                (ClientPhase::AwaitLogin, Ok(PacketClientEnum::LoginStart(l))) => {
                    if old(config)@.contains_key(old(self).host()->0) {
                        &&& final(config)@ == table_add_player(
                            old(config)@,
                            old(self).host()->0,
                            l.name@,
                        )
                        &&& client_effects(r@) == seq![
                            ClientEffect::OpenUpstream {
                                address: old(self).upstream()->0,
                                handshake: old(self).handshake()->0,
                                login: l.name@,
                            },
                        ]
                        &&& final(self).phase() == ClientPhase::Forwarding
                        &&& final(self).registered()
                        &&& final(self).host() == old(self).host()
                        &&& final(self).player() == Some(l.name@)
                        &&& !final(self).upstream_attached()
                        &&& final(self).protocol() == old(self).protocol()
                        &&& final(self).threshold() == old(self).threshold()
                        &&& final(self).upstream() == old(self).upstream()
                        &&& final(self).handshake() is None
                    } else {
                        &&& final(config)@ == old(config)@
                        &&& final(self).same_registration(old(self))
                        &&& client_effects(r@) == seq![ClientEffect::Close]
                        &&& final(self).phase() == ClientPhase::Closed
                        &&& final(self).same_codec_and_route(old(self))
                    }
                },
                (ClientPhase::Forwarding, Ok(PacketClientEnum::Raw(p))) => {
                    &&& final(config)@ == old(config)@
                    &&& final(self).same_registration(old(self))
                    &&& client_effects(r@) == seq![
                        ClientEffect::ToUpstream(
                            MessageModel::SendPacket(ServerBound::Raw { id: p.id, data: p.data@ }),
                        ),
                    ]
                    &&& final(self).phase() == ClientPhase::Forwarding
                    &&& final(self).same_codec_and_route(old(self))
                },
                _ => {
                    &&& final(config)@ == old(config)@
                    &&& final(self).same_registration(old(self))
                    &&& client_effects(r@) == seq![ClientEffect::Close]
                    &&& final(self).phase() == ClientPhase::Closed
                    &&& final(self).same_codec_and_route(old(self))
                },
            },
    {
        let mut actions: Vec<ClientAction> = Vec::new();
        match (self.phase, packet) {
            (ClientPhase::AwaitHandshake, Ok(PacketClientEnum::Handshake(h))) => {
                let wanted = h.next_protocol == Protocol::Status || h.next_protocol
                    == Protocol::Login;
                let route = if wanted {
                    config.get_server(h.server_address.as_str())
                } else {
                    None
                };
                match route {
                    Some(server) => {
                        let upstream = server.upstream;
                        self.pipeline.set_protocol(h.next_protocol);
                        self.phase = if h.next_protocol == Protocol::Status {
                            ClientPhase::AwaitStatus
                        } else {
                            ClientPhase::AwaitLogin
                        };
                        self.connection_host = Some(h.server_address.clone());
                        self.upstream_host = Some(upstream);
                        self.handshake = Some(h);
                    },
                    None => self.close(&mut actions),
                }
            },
            (ClientPhase::AwaitStatus, Ok(PacketClientEnum::StatusRequest(_))) => {
                if !self.status_pending {
                    match self.upstream_host {
                        Some(address) => {
                            self.status_pending = true;
                            actions.push(ClientAction::FetchStatus(address));
                        },
                        None => self.close(&mut actions),
                    }
                } else {
                    self.close(&mut actions);
                }
            },
            (ClientPhase::AwaitStatus, Ok(PacketClientEnum::Ping(q))) => {
                if self.status_pending {
                    // Answered once the status response has gone out.
                    self.held_pings.push(q.payload);
                } else {
                    let pong = PacketServerEnum::Pong(PongPacket { payload: q.payload });
                    match self.pipeline.encode_client_bound(&pong) {
                        Ok(bytes) => actions.push(ClientAction::SendToClient(bytes)),
                        Err(()) => self.close(&mut actions),
                    }
                }
            },
            (ClientPhase::AwaitLogin, Ok(PacketClientEnum::LoginStart(l))) => {
                let host = match &self.connection_host {
                    Some(host) => host.clone(),
                    None => String::new(),
                };
                if config.get_server(host.as_str()).is_some() {
                    config.add_player(host.as_str(), l.name.clone());
                    self.name = Some(l.name.clone());
                    self.registered = true;
                    self.phase = ClientPhase::Forwarding;
                    let handshake = self.handshake.take();
                    match (handshake, self.upstream_host) {
                        (Some(handshake), Some(address)) => {
                            actions.push(
                                ClientAction::OpenUpstream { address, handshake, login: l },
                            );
                        },
                        _ => {},
                    }
                } else {
                    self.close(&mut actions);
                }
            },
            (ClientPhase::Forwarding, Ok(PacketClientEnum::Raw(p))) => {
                actions.push(
                    ClientAction::ToUpstream(HandlerMessage::SendPacket(PacketClientEnum::Raw(p))),
                );
            },
            _ => self.close(&mut actions),
        }
        assert(client_effects(actions@) =~= actions@.map_values(|a: ClientAction| a@));
        actions
    }

    /// Reacts to the outcome of the status probe: the first outcome for a
    /// pending request sends exactly one status response carrying the
    /// probe's status, followed by the pongs of the pings held meanwhile,
    /// or closes the connection on failure; an outcome with no request
    /// pending is dropped.
    pub fn status_fetched(&mut self, status: Option<String>) -> (r: Vec<ClientAction>)
        requires
            old(self).wf(),
        ensures
            final(self).wf(),
            final(self).pending() == old(self).pending(),
            final(self).same_registration(old(self)),
            final(self).same_codec_and_route(old(self)),
            !final(self).status_pending(),
            final(self).held_pings().len() == 0,
            if old(self).phase() == ClientPhase::AwaitStatus && old(self).status_pending() {
                match status {
                    Some(s) => match client_bound_frame(
                        Protocol::Status,
                        None,
                        ClientBound::StatusResponse(s@),
                    ) {
                        Some(f) => client_effects(r@) == seq![ClientEffect::SendToClient(f)]
                            + pong_effects(old(self).held_pings()) && final(self).phase()
                            == ClientPhase::AwaitStatus,
                        None => client_effects(r@) == seq![ClientEffect::Close]
                            && final(self).phase() == ClientPhase::Closed,
                    },
                    None => client_effects(r@) == seq![ClientEffect::Close] && final(self).phase()
                        == ClientPhase::Closed,
                }
            } else {
                r@.len() == 0 && final(self).phase() == old(self).phase()
            },
    {
        let mut actions: Vec<ClientAction> = Vec::new();
        if self.phase == ClientPhase::AwaitStatus && self.status_pending {
            match status {
                Some(status) => {
                    let response = PacketServerEnum::StatusResponse(StatusResponsePacket { status });
                    match self.pipeline.encode_client_bound(&response) {
                        Ok(bytes) => {
                            actions.push(ClientAction::SendToClient(bytes));
                            self.send_held_pongs(&mut actions);
                        },
                        Err(()) => self.close(&mut actions),
                    }
                },
                None => self.close(&mut actions),
            }
        }
        self.held_pings = Vec::new();
        self.status_pending = false;
        assert(client_effects(actions@) =~= actions@.map_values(|a: ClientAction| a@));
        actions
    }

    /// Appends the pongs of the held pings, in order.
    fn send_held_pongs(&mut self, actions: &mut Vec<ClientAction>)
        requires
            old(self).protocol() == Protocol::Status,
            old(self).threshold() is None,
        ensures
            *final(self) == *old(self),
            client_effects(final(actions)@) == client_effects(old(actions)@) + pong_effects(
                old(self).held_pings(),
            ),
    {
        let ghost start = client_effects(actions@);
        let mut i: usize = 0;
        while i < self.held_pings.len()
            invariant
                self.protocol() == Protocol::Status,
                self.threshold() is None,
                i <= self.held_pings@.len(),
                client_effects(actions@) == start + pong_effects(self.held_pings@.take(i as int)),
            decreases self.held_pings@.len() - i,
        {
            let payload = self.held_pings[i];
            let pong = PacketServerEnum::Pong(PongPacket { payload });
            let ghost before = actions@;
            match self.pipeline.encode_client_bound(&pong) {
                Ok(bytes) => actions.push(ClientAction::SendToClient(bytes)),
                Err(()) => {},
            }
            proof {
                assert(self.held_pings@.take(i + 1) =~= self.held_pings@.take(i as int).push(
                    payload,
                ));
                assert(client_effects(actions@) =~= client_effects(before).push(
                    ClientEffect::SendToClient(pong_frame(payload)),
                ));
                assert(pong_effects(self.held_pings@.take(i + 1)) =~= pong_effects(
                    self.held_pings@.take(i as int),
                ).push(ClientEffect::SendToClient(pong_frame(payload))));
            }
            i = i + 1;
        }
        assert(self.held_pings@.take(i as int) =~= self.held_pings@);
    }

    /// Reacts to the outcome of opening the upstream session after login:
    /// on success it is attached (or, if this session closed meanwhile,
    /// told to disconnect); on failure the connection closes.
    pub fn upstream_opened(&mut self, ok: bool) -> (r: Vec<ClientAction>)
        requires
            old(self).wf(),
        ensures
            final(self).wf(),
            final(self).pending() == old(self).pending(),
            final(self).registered() == old(self).registered(),
            final(self).host() == old(self).host(),
            final(self).player() == old(self).player(),
            final(self).protocol() == old(self).protocol(),
            final(self).threshold() == old(self).threshold(),
            if old(self).phase() == ClientPhase::Forwarding {
                if ok {
                    r@.len() == 0 && final(self).upstream_attached() && final(self).phase()
                        == ClientPhase::Forwarding
                } else {
                    client_effects(r@) == seq![ClientEffect::Close] && final(self).phase()
                        == ClientPhase::Closed && final(self).upstream_attached() == old(
                        self,
                    ).upstream_attached()
                }
            } else {
                final(self).phase() == old(self).phase() && final(self).upstream_attached() == old(
                    self,
                ).upstream_attached() && if ok {
                    client_effects(r@) == seq![ClientEffect::ToUpstream(MessageModel::Disconnect)]
                } else {
                    r@.len() == 0
                }
            },
    {
        let mut actions: Vec<ClientAction> = Vec::new();
        if self.phase == ClientPhase::Forwarding {
            if ok {
                self.upstream_attached = true;
            } else {
                self.close(&mut actions);
            }
        } else if ok {
            actions.push(ClientAction::ToUpstream(HandlerMessage::Disconnect));
        }
        assert(client_effects(actions@) =~= actions@.map_values(|a: ClientAction| a@));
        actions
    }

    /// Carries out a message from the upstream session. While forwarding:
    /// a packet is encoded for the client under the current protocol and
    /// compression (one that cannot be closes the connection), protocol
    /// and compression changes apply to this pipeline, a disconnect closes
    /// the connection. In other phases only a disconnect has an effect.
    pub fn handle_message(&mut self, message: HandlerMessage<PacketServerEnum>) -> (r: Vec<
        ClientAction,
    >)
        requires
            old(self).wf(),
        ensures
            final(self).wf(),
            final(self).pending() == old(self).pending(),
            final(self).same_registration(old(self)),
            final(self).upstream() == old(self).upstream(),
            final(self).handshake() == old(self).handshake(),
            match (old(self).phase(), message) {
                (_, HandlerMessage::Disconnect) => client_effects(r@) == seq![ClientEffect::Close]
                    && final(self).phase() == ClientPhase::Closed,
                (ClientPhase::Forwarding, HandlerMessage::SendPacket(p)) => final(self).protocol()
                    == old(self).protocol() && final(self).threshold() == old(self).threshold()
                    && match client_bound_frame(old(self).protocol(), old(self).threshold(), p@) {
                    Some(f) => client_effects(r@) == seq![ClientEffect::SendToClient(f)]
                        && final(self).phase() == ClientPhase::Forwarding,
                    None => client_effects(r@) == seq![ClientEffect::Close] && final(self).phase()
                        == ClientPhase::Closed,
                },
                (ClientPhase::Forwarding, HandlerMessage::SetProtocol(p)) => r@.len() == 0
                    && final(self).protocol() == p && final(self).threshold() == old(
                    self,
                ).threshold() && final(self).phase() == ClientPhase::Forwarding,
                (ClientPhase::Forwarding, HandlerMessage::EnableCompression(l)) => r@.len() == 0
                    && final(self).threshold() == l && final(self).protocol() == old(
                    self,
                ).protocol() && final(self).phase() == ClientPhase::Forwarding,
                _ => r@.len() == 0 && final(self).phase() == old(self).phase()
                    && final(self).protocol() == old(self).protocol() && final(self).threshold()
                    == old(self).threshold(),
            },
    {
        let mut actions: Vec<ClientAction> = Vec::new();
        match message {
            HandlerMessage::Disconnect => self.close(&mut actions),
            HandlerMessage::SendPacket(p) => {
                if self.phase == ClientPhase::Forwarding {
                    match self.pipeline.encode_client_bound(&p) {
                        Ok(bytes) => actions.push(ClientAction::SendToClient(bytes)),
                        Err(()) => self.close(&mut actions),
                    }
                }
            },
            HandlerMessage::SetProtocol(p) => {
                if self.phase == ClientPhase::Forwarding {
                    self.pipeline.set_protocol(p);
                }
            },
            HandlerMessage::EnableCompression(l) => {
                if self.phase == ClientPhase::Forwarding {
                    self.pipeline.enable_compression(l);
                }
            },
        }
        assert(client_effects(actions@) =~= actions@.map_values(|a: ClientAction| a@));
        actions
    }

    /// The client connection ended: the upstream session, if attached, is
    /// told to disconnect, and a registered player name leaves its route's
    /// list. Both happen once: a second call does nothing.
    pub fn finished(&mut self, config: &mut Configuration) -> (r: Vec<ClientAction>)
        requires
            old(self).wf(),
        ensures
            final(self).wf(),
            final(self).phase() == ClientPhase::Closed,
            !final(self).registered(),
            !final(self).upstream_attached(),
            final(self).host() == old(self).host(),
            final(self).player() == old(self).player(),
            final(self).pending() == old(self).pending(),
            old(self).registered() ==> final(config)@ == table_remove_player(
                old(config)@,
                old(self).host()->0,
                old(self).player()->0,
            ),
            !old(self).registered() ==> final(config)@ == old(config)@,
            old(self).upstream_attached() ==> client_effects(r@) == seq![
                ClientEffect::ToUpstream(MessageModel::Disconnect),
            ],
            !old(self).upstream_attached() ==> r@.len() == 0,
    {
        let mut actions: Vec<ClientAction> = Vec::new();
        if self.upstream_attached {
            actions.push(ClientAction::ToUpstream(HandlerMessage::Disconnect));
            self.upstream_attached = false;
        }
        if self.registered {
            match (&self.connection_host, &self.name) {
                (Some(host), Some(name)) => {
                    config.remove_player(host.as_str(), name.as_str());
                },
                _ => {},
            }
            self.registered = false;
        }
        self.phase = ClientPhase::Closed;
        assert(client_effects(actions@) =~= actions@.map_values(|a: ClientAction| a@));
        actions
    }
}

} // verus!
