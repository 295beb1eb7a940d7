//! The packet table: which packet a `(protocol, direction, id)` names, and
//! how each packet is written with its id.

use vstd::prelude::*;
use crate::buffer::{
    lemma_string_round_trip, lemma_u64_round_trip, parse_string, parse_u64, string_bytes,
    u64_bytes, write_raw_bytes, Buffer,
};
use crate::packets::{
    lemma_compression_round_trip, lemma_handshake_round_trip, compression_body, handshake_body, login_success_body, parse_compression, parse_handshake,
    parse_login_success, string_body, CompressionPacket, DisconnectPacket, HandshakeModel,
    HandshakePacket, LoginStartPacket, LoginSuccessPacket, PingPacket, PongPacket, RawPacket,
    StatusRequestPacket, StatusResponsePacket,
};
use crate::protocol::Protocol;

verus! {

/// Packets sent by a client to a server.
#[derive(Debug, Clone, PartialEq, Eq)]
pub enum PacketClientEnum {
    Handshake(HandshakePacket),
    StatusRequest(StatusRequestPacket),
    Ping(PingPacket),
    LoginStart(LoginStartPacket),
    Raw(RawPacket),
}

/// Packets sent by a server to a client.
#[derive(Debug, Clone, PartialEq, Eq)]
pub enum PacketServerEnum {
    StatusResponse(StatusResponsePacket),
    Pong(PongPacket),
    Disconnect(DisconnectPacket),
    Compression(CompressionPacket),
    LoginSuccess(LoginSuccessPacket),
    Raw(RawPacket),
}

/// Abstract server-bound packet.
pub enum ServerBound {
    Handshake(HandshakeModel),
    StatusRequest,
    Ping(u64),
    LoginStart(Seq<char>),
    Raw { id: u8, data: Seq<u8> },
}

/// Abstract client-bound packet.
pub enum ClientBound {
    StatusResponse(Seq<char>),
    Pong(u64),
    Disconnect(Seq<char>),
    Compression(Option<usize>),
    LoginSuccess { uuid: u128, name: Seq<char> },
    Raw { id: u8, data: Seq<u8> },
}

impl View for PacketClientEnum {
    type V = ServerBound;

    open spec fn view(&self) -> ServerBound {
        match self {
            PacketClientEnum::Handshake(p) => ServerBound::Handshake(p@),
            PacketClientEnum::StatusRequest(_) => ServerBound::StatusRequest,
            PacketClientEnum::Ping(p) => ServerBound::Ping(p.payload),
            PacketClientEnum::LoginStart(p) => ServerBound::LoginStart(p.name@),
            PacketClientEnum::Raw(p) => ServerBound::Raw { id: p.id, data: p.data@ },
        }
    }
}

impl View for PacketServerEnum {
    type V = ClientBound;

    open spec fn view(&self) -> ClientBound {
        match self {
            PacketServerEnum::StatusResponse(p) => ClientBound::StatusResponse(p.status@),
            PacketServerEnum::Pong(p) => ClientBound::Pong(p.payload),
            PacketServerEnum::Disconnect(p) => ClientBound::Disconnect(p.reason@),
            PacketServerEnum::Compression(p) => ClientBound::Compression(p.size_limit),
            PacketServerEnum::LoginSuccess(p) => ClientBound::LoginSuccess {
                uuid: p.uuid,
                name: p.name@,
            },
            PacketServerEnum::Raw(p) => ClientBound::Raw { id: p.id, data: p.data@ },
        }
    }
}

/// The server-bound packet with id `id` and body `body` under `protocol`.
/// Play never fails: any id is a raw packet holding the whole body.
pub open spec fn server_bound_packet(protocol: Protocol, id: u8, body: Seq<u8>) -> Option<
    ServerBound,
> {
    match protocol {
        Protocol::Handshake => if id == 0 {
            match parse_handshake(body) {
                Some((m, _)) => Some(ServerBound::Handshake(m)),
                None => None,
            }
        } else {
            None
        },
        Protocol::Status => if id == 0 {
            Some(ServerBound::StatusRequest)
        } else if id == 1 {
            match parse_u64(body) {
                Some((v, _)) => Some(ServerBound::Ping(v)),
                None => None,
            }
        } else {
            None
        },
        Protocol::Login => if id == 0 {
            match parse_string(body) {
                Some((name, _)) => Some(ServerBound::LoginStart(name)),
                None => None,
            }
        } else {
            None
        },
        Protocol::Play => Some(ServerBound::Raw { id, data: body }),
    }
}

/// The client-bound packet with id `id` and body `body` under `protocol`.
pub open spec fn client_bound_packet(protocol: Protocol, id: u8, body: Seq<u8>) -> Option<
    ClientBound,
> {
    match protocol {
        Protocol::Handshake => None,
        Protocol::Status => if id == 0 {
            match parse_string(body) {
                Some((s, _)) => Some(ClientBound::StatusResponse(s)),
                None => None,
            }
        } else if id == 1 {
            match parse_u64(body) {
                Some((v, _)) => Some(ClientBound::Pong(v)),
                None => None,
            }
        } else {
            None
        },
        Protocol::Login => if id == 0 {
            match parse_string(body) {
                Some((s, _)) => Some(ClientBound::Disconnect(s)),
                None => None,
            }
        } else if id == 2 {
            match parse_login_success(body) {
                Some(((uuid, name), _)) => Some(ClientBound::LoginSuccess { uuid, name }),
                None => None,
            }
        } else if id == 3 {
            match parse_compression(body) {
                Some((l, _)) => Some(ClientBound::Compression(l)),
                None => None,
            }
        } else {
            None
        },
        Protocol::Play => Some(ClientBound::Raw { id, data: body }),
    }
}

/// What is left of `body` once the server-bound packet it starts with is
/// read: Play packets take the whole body.
pub open spec fn server_bound_rest(protocol: Protocol, id: u8, body: Seq<u8>) -> Seq<u8> {
    match protocol {
        Protocol::Handshake => match parse_handshake(body) {
            Some((_, rest)) => rest,
            None => body,
        },
        Protocol::Status => if id == 1 {
            match parse_u64(body) {
                Some((_, rest)) => rest,
                None => body,
            }
        } else {
            body
        },
        Protocol::Login => match parse_string(body) {
            Some((_, rest)) => rest,
            None => body,
        },
        Protocol::Play => Seq::empty(),
    }
}

/// What is left of `body` once the client-bound packet it starts with is
/// read: Play packets take the whole body.
pub open spec fn client_bound_rest(protocol: Protocol, id: u8, body: Seq<u8>) -> Seq<u8> {
    match protocol {
        Protocol::Status => if id == 0 {
            match parse_string(body) {
                Some((_, rest)) => rest,
                None => body,
            }
        } else {
            match parse_u64(body) {
                Some((_, rest)) => rest,
                None => body,
            }
        },
        Protocol::Login => if id == 0 {
            match parse_string(body) {
                Some((_, rest)) => rest,
                None => body,
            }
        } else if id == 2 {
            match parse_login_success(body) {
                Some((_, rest)) => rest,
                None => body,
            }
        } else {
            match parse_compression(body) {
                Some((_, rest)) => rest,
                None => body,
            }
        },
        Protocol::Play => Seq::empty(),
        Protocol::Handshake => body,
    }
}

/// `id` followed by `body`, where there is a body.
pub open spec fn with_id(id: u8, body: Option<Seq<u8>>) -> Option<Seq<u8>> {
    match body {
        Some(b) => Some(seq![id] + b),
        None => None,
    }
}

/// The bytes of a server-bound packet under `protocol`: its id, then its
/// body; none for a packet that `protocol` does not carry.
pub open spec fn server_bound_bytes(protocol: Protocol, p: ServerBound) -> Option<Seq<u8>> {
    match (protocol, p) {
        (Protocol::Handshake, ServerBound::Handshake(m)) => with_id(0, handshake_body(m)),
        (Protocol::Status, ServerBound::StatusRequest) => Some(seq![0u8]),
        (Protocol::Status, ServerBound::Ping(v)) => Some(seq![1u8] + u64_bytes(v)),
        (Protocol::Login, ServerBound::LoginStart(name)) => with_id(0, string_body(name)),
        (Protocol::Play, ServerBound::Raw { id, data }) => Some(seq![id] + data),
        _ => None,
    }
}

/// The bytes of a client-bound packet under `protocol`.
pub open spec fn client_bound_bytes(protocol: Protocol, p: ClientBound) -> Option<Seq<u8>> {
    match (protocol, p) {
        (Protocol::Status, ClientBound::StatusResponse(s)) => with_id(0, string_body(s)),
        (Protocol::Status, ClientBound::Pong(v)) => Some(seq![1u8] + u64_bytes(v)),
        (Protocol::Login, ClientBound::Disconnect(s)) => with_id(0, string_body(s)),
        (Protocol::Login, ClientBound::LoginSuccess { uuid, name }) => with_id(
            2,
            login_success_body(uuid, name),
        ),
        (Protocol::Login, ClientBound::Compression(l)) => with_id(3, compression_body(l)),
        (Protocol::Play, ClientBound::Raw { id, data }) => Some(seq![id] + data),
        _ => None,
    }
}

/// For every protocol and every server-bound packet it carries: the
/// packet read back from the bytes written for it is that packet.
pub proof fn lemma_server_bound_round_trip(protocol: Protocol, p: ServerBound)
    requires
        server_bound_bytes(protocol, p) is Some,
    ensures
        server_bound_bytes(protocol, p)->0.len() >= 1,
        server_bound_packet(
            protocol,
            server_bound_bytes(protocol, p)->0[0],
            server_bound_bytes(protocol, p)->0.skip(1),
        ) == Some(p),
{
    let b = server_bound_bytes(protocol, p)->0;
    match (protocol, p) {
        (Protocol::Handshake, ServerBound::Handshake(m)) => {
            lemma_handshake_round_trip(m, Seq::empty());
            assert(b.skip(1) =~= handshake_body(m)->0 + Seq::<u8>::empty());
        },
        (Protocol::Status, ServerBound::Ping(v)) => {
            lemma_u64_round_trip(v, Seq::empty());
            assert(b.skip(1) =~= u64_bytes(v) + Seq::<u8>::empty());
        },
        (Protocol::Login, ServerBound::LoginStart(name)) => {
            lemma_string_round_trip(name, Seq::empty());
            assert(b.skip(1) =~= string_bytes(name) + Seq::<u8>::empty());
        },
        (Protocol::Play, ServerBound::Raw { id, data }) => {
            assert(b.skip(1) =~= data);
        },
        _ => {},
    }
}

/// For every protocol and every client-bound packet it carries but a login
/// success (whose UUID text is read back by the outside parser): the packet
/// read back from the bytes written for it is that packet.
pub proof fn lemma_client_bound_round_trip(protocol: Protocol, p: ClientBound)
    requires
        client_bound_bytes(protocol, p) is Some,
        !(p is LoginSuccess),
    ensures
        client_bound_bytes(protocol, p)->0.len() >= 1,
        client_bound_packet(
            protocol,
            client_bound_bytes(protocol, p)->0[0],
            client_bound_bytes(protocol, p)->0.skip(1),
        ) == Some(p),
{
    let b = client_bound_bytes(protocol, p)->0;
    match (protocol, p) {
        (Protocol::Status, ClientBound::StatusResponse(t)) => {
            lemma_string_round_trip(t, Seq::empty());
            assert(b.skip(1) =~= string_bytes(t) + Seq::<u8>::empty());
        },
        (Protocol::Status, ClientBound::Pong(v)) => {
            lemma_u64_round_trip(v, Seq::empty());
            assert(b.skip(1) =~= u64_bytes(v) + Seq::<u8>::empty());
        },
        (Protocol::Login, ClientBound::Disconnect(t)) => {
            lemma_string_round_trip(t, Seq::empty());
            assert(b.skip(1) =~= string_bytes(t) + Seq::<u8>::empty());
        },
        (Protocol::Login, ClientBound::Compression(l)) => {
            lemma_compression_round_trip(l, Seq::empty());
            assert(b.skip(1) =~= compression_body(l)->0 + Seq::<u8>::empty());
        },
        (Protocol::Play, ClientBound::Raw { id, data }) => {
            assert(b.skip(1) =~= data);
        },
        _ => {},
    }
}

/// Appends `id` and `body` to `buf`.
fn write_with_id(buf: &mut Vec<u8>, id: u8, body: Vec<u8>)
    ensures
        final(buf)@ == old(buf)@ + (seq![id] + body@),
{
    buf.push(id);
    write_raw_bytes(buf, body.as_slice());
    assert(final(buf)@ =~= old(buf)@ + (seq![id] + body@));
}

/// The packet table of a connection to a client: reads what the client
/// sends, writes what it receives.
pub struct ClientWireCodec;

impl ClientWireCodec {
    pub fn read_packet(protocol: &Protocol, packet_id: u8, buf: &mut Buffer) -> (r: Result<
        PacketClientEnum,
        (),
    >)
        requires
            old(buf).wf(),
        ensures
            final(buf).wf(),
            match server_bound_packet(*protocol, packet_id, old(buf).rest()) {
                Some(m) => r matches Ok(p) && p@ == m && final(buf).rest() == server_bound_rest(
                    *protocol,
                    packet_id,
                    old(buf).rest(),
                ),
                None => r is Err,
            },
    {
        match protocol {
            Protocol::Handshake => {
                if packet_id == 0 {
                    let p = HandshakePacket::decode(buf)?;
                    Ok(PacketClientEnum::Handshake(p))
                } else {
                    Err(())
                }
            },
            Protocol::Status => {
                if packet_id == 0 {
                    let p = StatusRequestPacket::decode(buf)?;
                    Ok(PacketClientEnum::StatusRequest(p))
                } else if packet_id == 1 {
                    let p = PingPacket::decode(buf)?;
                    Ok(PacketClientEnum::Ping(p))
                } else {
                    Err(())
                }
            },
            Protocol::Login => {
                if packet_id == 0 {
                    let p = LoginStartPacket::decode(buf)?;
                    Ok(PacketClientEnum::LoginStart(p))
                } else {
                    Err(())
                }
            },
            Protocol::Play => Ok(
                PacketClientEnum::Raw(RawPacket { id: packet_id, data: buf.remaining_bytes() }),
            ),
        }
    }

    /// Appends the packet with its id; refused, with nothing written, where
    /// `protocol` does not carry it or it cannot be encoded.
    pub fn write_packet(protocol: &Protocol, packet: &PacketServerEnum, buf: &mut Vec<u8>) -> (r:
        Result<(), ()>)
        ensures
            match client_bound_bytes(*protocol, packet@) {
                Some(b) => r is Ok && final(buf)@ == old(buf)@ + b,
                None => r is Err && final(buf)@ == old(buf)@,
            },
    {
        let mut body: Vec<u8> = Vec::new();
        let id: u8 = match (protocol, packet) {
            (Protocol::Status, PacketServerEnum::StatusResponse(p)) => {
                p.encode(&mut body)?;
                0
            },
            (Protocol::Status, PacketServerEnum::Pong(p)) => {
                p.encode(&mut body)?;
                1
            },
            (Protocol::Login, PacketServerEnum::Disconnect(p)) => {
                p.encode(&mut body)?;
                0
            },
            (Protocol::Login, PacketServerEnum::LoginSuccess(p)) => {
                p.encode(&mut body)?;
                2
            },
            (Protocol::Login, PacketServerEnum::Compression(p)) => {
                p.encode(&mut body)?;
                3
            },
            (Protocol::Play, PacketServerEnum::Raw(p)) => {
                write_raw_bytes(&mut body, p.data.as_slice());
                p.id
            },
            _ => {
                return Err(());
            },
        };
        assert(body@ =~= Seq::<u8>::empty() + body@);
        write_with_id(buf, id, body);
        Ok(())
    }
}

/// The packet table of a connection to a server: reads what the server
/// sends, writes what it receives.
pub struct ServerWireCodec;

impl ServerWireCodec {
    pub fn read_packet(protocol: &Protocol, packet_id: u8, buf: &mut Buffer) -> (r: Result<
        PacketServerEnum,
        (),
    >)
        requires
            old(buf).wf(),
        ensures
            final(buf).wf(),
            match client_bound_packet(*protocol, packet_id, old(buf).rest()) {
                Some(m) => r matches Ok(p) && p@ == m && final(buf).rest() == client_bound_rest(
                    *protocol,
                    packet_id,
                    old(buf).rest(),
                ),
                None => r is Err,
            },
    {
        match protocol {
            Protocol::Handshake => Err(()),
            Protocol::Status => {
                if packet_id == 0 {
                    let p = StatusResponsePacket::decode(buf)?;
                    Ok(PacketServerEnum::StatusResponse(p))
                } else if packet_id == 1 {
                    let p = PongPacket::decode(buf)?;
                    Ok(PacketServerEnum::Pong(p))
                } else {
                    Err(())
                }
            },
            Protocol::Login => {
                if packet_id == 0 {
                    let p = DisconnectPacket::decode(buf)?;
                    Ok(PacketServerEnum::Disconnect(p))
                } else if packet_id == 2 {
                    let p = LoginSuccessPacket::decode(buf)?;
                    Ok(PacketServerEnum::LoginSuccess(p))
                } else if packet_id == 3 {
                    let p = CompressionPacket::decode(buf)?;
                    Ok(PacketServerEnum::Compression(p))
                } else {
                    Err(())
                }
            },
            Protocol::Play => Ok(
                PacketServerEnum::Raw(RawPacket { id: packet_id, data: buf.remaining_bytes() }),
            ),
        }
    }

    /// Appends the packet with its id; refused, with nothing written, where
    /// `protocol` does not carry it or it cannot be encoded.
    pub fn write_packet(protocol: &Protocol, packet: &PacketClientEnum, buf: &mut Vec<u8>) -> (r:
        Result<(), ()>)
        ensures
            match server_bound_bytes(*protocol, packet@) {
                Some(b) => r is Ok && final(buf)@ == old(buf)@ + b,
                None => r is Err && final(buf)@ == old(buf)@,
            },
    {
        let mut body: Vec<u8> = Vec::new();
        let id: u8 = match (protocol, packet) {
            (Protocol::Handshake, PacketClientEnum::Handshake(p)) => {
                p.encode(&mut body)?;
                0
            },
            (Protocol::Status, PacketClientEnum::StatusRequest(p)) => {
                p.encode(&mut body)?;
                0
            },
            (Protocol::Status, PacketClientEnum::Ping(p)) => {
                p.encode(&mut body)?;
                1
            },
            (Protocol::Login, PacketClientEnum::LoginStart(p)) => {
                p.encode(&mut body)?;
                0
            },
            (Protocol::Play, PacketClientEnum::Raw(p)) => {
                write_raw_bytes(&mut body, p.data.as_slice());
                p.id
            },
            _ => {
                return Err(());
            },
        };
        assert(body@ =~= Seq::<u8>::empty() + body@);
        write_with_id(buf, id, body);
        Ok(())
    }
}

} // verus!
