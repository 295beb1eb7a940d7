//! The packets the proxy understands, their abstract models and the
//! encoding of their bodies.

use vstd::prelude::*;
use crate::buffer::{
    lemma_string_round_trip, lemma_u16_round_trip, lemma_var_int_round_trip, fits_length_prefix, parse_string, parse_u16, parse_u64, parse_uuid, parse_var_int,
    string_bytes, string_fits, u16_bytes, u64_bytes, uuid_hyphenated, var_int_bytes, write_raw_bytes,
    write_string, write_u16, write_u64, write_uuid, write_var_int, Buffer,
};
use crate::protocol::{protocol_of_int, protocol_wire_value, Protocol};

verus! {

/// The first packet a client sends: the protocol version it speaks, the
/// address and port it meant to reach, and the sub-protocol it asks for.
#[derive(Debug, Clone, PartialEq, Eq)]
pub struct HandshakePacket {
    pub protocol_version: i32,
    pub server_address: String,
    pub server_port: u16,
    pub next_protocol: Protocol,
}

/// Asks the server for its status.
#[derive(Debug, Clone, PartialEq, Eq)]
pub struct StatusRequestPacket;

/// A number for the server to echo.
#[derive(Debug, Clone, PartialEq, Eq)]
pub struct PingPacket {
    pub payload: u64,
}

/// The echo of a [`PingPacket`].
#[derive(Debug, Clone, PartialEq, Eq)]
pub struct PongPacket {
    pub payload: u64,
}

/// The server's status, as the JSON text of its server information.
#[derive(Debug, Clone, PartialEq, Eq)]
pub struct StatusResponsePacket {
    pub status: String,
}

/// Asks to log in under a player name.
#[derive(Debug, Clone, PartialEq, Eq)]
pub struct LoginStartPacket {
    pub name: String,
}

/// Why the server is closing the connection.
#[derive(Debug, Clone, PartialEq, Eq)]
pub struct DisconnectPacket {
    pub reason: String,
}

/// Enables compression of frame bodies of at least `size_limit` bytes, or
/// disables it where there is no limit.
#[derive(Debug, Clone, PartialEq, Eq)]
pub struct CompressionPacket {
    pub size_limit: Option<usize>,
}

/// The login completed: the player's UUID and name. The client switches to
/// the Play protocol.
#[derive(Debug, Clone, PartialEq, Eq)]
pub struct LoginSuccessPacket {
    pub uuid: u128,
    pub name: String,
}

/// A Play packet that is not decoded: its id and the bytes after it.
#[derive(Debug, Clone, PartialEq, Eq)]
pub struct RawPacket {
    pub id: u8,
    pub data: Vec<u8>,
}

/// Abstract handshake, with the address as characters.
pub struct HandshakeModel {
    pub protocol_version: i32,
    pub server_address: Seq<char>,
    pub server_port: u16,
    pub next_protocol: Protocol,
}

impl View for HandshakePacket {
    type V = HandshakeModel;

    open spec fn view(&self) -> HandshakeModel {
        HandshakeModel {
            protocol_version: self.protocol_version,
            server_address: self.server_address@,
            server_port: self.server_port,
            next_protocol: self.next_protocol,
        }
    }
}

/// The body of a handshake; none where the next protocol is `Handshake`,
/// which has no wire value, or the address is too long.
pub open spec fn handshake_body(m: HandshakeModel) -> Option<Seq<u8>> {
    if m.next_protocol == Protocol::Handshake || !string_fits(m.server_address) {
        None
    } else {
        Some(
            var_int_bytes(m.protocol_version) + string_bytes(m.server_address) + u16_bytes(
                m.server_port,
            ) + var_int_bytes(protocol_wire_value(m.next_protocol)),
        )
    }
}

/// A handshake at the front of `s`, and the bytes after it.
pub open spec fn parse_handshake(s: Seq<u8>) -> Option<(HandshakeModel, Seq<u8>)> {
    match parse_var_int(s) {
        Some((version, s1)) => match parse_string(s1) {
            Some((address, s2)) => match parse_u16(s2) {
                Some((port, s3)) => match parse_var_int(s3) {
                    Some((next, s4)) => match protocol_of_int(next) {
                        Some(p) => Some(
                            (
                                HandshakeModel {
                                    protocol_version: version,
                                    server_address: address,
                                    server_port: port,
                                    next_protocol: p,
                                },
                                s4,
                            ),
                        ),
                        None => None,
                    },
                    None => None,
                },
                None => None,
            },
            None => None,
        },
        None => None,
    }
}

/// The body of a compression packet: the threshold, or `-1` for none; a
/// threshold beyond `i32` cannot be written.
pub open spec fn compression_body(size_limit: Option<usize>) -> Option<Seq<u8>> {
    match size_limit {
        Some(l) => if l <= i32::MAX {
            Some(var_int_bytes(l as i32))
        } else {
            None
        },
        None => Some(var_int_bytes(-1i32)),
    }
}

/// A compression packet at the front of `s`: a negative threshold
/// disables compression.
pub open spec fn parse_compression(s: Seq<u8>) -> Option<(Option<usize>, Seq<u8>)> {
    match parse_var_int(s) {
        Some((limit, rest)) => if limit < 0 {
            Some((None, rest))
        } else {
            Some((Some(limit as usize), rest))
        },
        None => None,
    }
}

/// The body of a string-only packet, if the string fits.
pub open spec fn string_body(s: Seq<char>) -> Option<Seq<u8>> {
    if string_fits(s) {
        Some(string_bytes(s))
    } else {
        None
    }
}

/// The body of a login success: the UUID's text, then the name, which must
/// fit a length prefix.
pub open spec fn login_success_body(uuid: u128, name: Seq<char>) -> Option<Seq<u8>> {
    if string_fits(name) {
        Some(string_bytes(uuid_hyphenated(uuid)) + string_bytes(name))
    } else {
        None
    }
}

/// A login success at the front of `s`.
pub open spec fn parse_login_success(s: Seq<u8>) -> Option<((u128, Seq<char>), Seq<u8>)> {
    match parse_uuid(s) {
        Some((uuid, s1)) => match parse_string(s1) {
            Some((name, s2)) => Some(((uuid, name), s2)),
            None => None,
        },
        None => None,
    }
}

/// Reading back a handshake body gives the handshake.
pub proof fn lemma_handshake_round_trip(m: HandshakeModel, rest: Seq<u8>)
    requires
        handshake_body(m) is Some,
    ensures
        parse_handshake(handshake_body(m)->0 + rest) == Some((m, rest)),
{
    let v = var_int_bytes(m.protocol_version);
    let a = string_bytes(m.server_address);
    let p = u16_bytes(m.server_port);
    let n = var_int_bytes(protocol_wire_value(m.next_protocol));
    assert(handshake_body(m)->0 + rest =~= v + (a + (p + (n + rest))));
    lemma_var_int_round_trip(m.protocol_version, a + (p + (n + rest)));
    lemma_string_round_trip(m.server_address, p + (n + rest));
    lemma_u16_round_trip(m.server_port, n + rest);
    lemma_var_int_round_trip(protocol_wire_value(m.next_protocol), rest);
}

/// Reading back a compression body gives the threshold.
pub proof fn lemma_compression_round_trip(size_limit: Option<usize>, rest: Seq<u8>)
    requires
        compression_body(size_limit) is Some,
    ensures
        parse_compression(compression_body(size_limit)->0 + rest) == Some((size_limit, rest)),
{
    match size_limit {
        Some(l) => lemma_var_int_round_trip(l as i32, rest),
        None => lemma_var_int_round_trip(-1i32, rest),
    }
}

impl HandshakePacket {
    pub fn decode(buf: &mut Buffer) -> (r: Result<HandshakePacket, ()>)
        requires
            old(buf).wf(),
        ensures
            final(buf).wf(),
            match parse_handshake(old(buf).rest()) {
                Some((m, rest)) => r matches Ok(p) && p@ == m && final(buf).rest() == rest,
                None => r is Err,
            },
    {
        let protocol_version = buf.read_var_int()?;
        let server_address = buf.read_string()?;
        let server_port = buf.read_u16()?;
        let next = buf.read_var_int()?;
        match Protocol::from_int(next) {
            Some(next_protocol) => Ok(
                HandshakePacket { protocol_version, server_address, server_port, next_protocol },
            ),
            None => Err(()),
        }
    }

    pub fn encode(&self, buf: &mut Vec<u8>) -> (r: Result<(), ()>)
        ensures
            match handshake_body(self@) {
                Some(b) => r is Ok && final(buf)@ == old(buf)@ + b,
                None => r is Err && final(buf)@ == old(buf)@,
            },
    {
        if self.next_protocol == Protocol::Handshake || !fits_length_prefix(
            self.server_address.as_str(),
        ) {
            return Err(());
        }
        write_var_int(buf, self.protocol_version);
        write_string(buf, self.server_address.as_str());
        write_u16(buf, self.server_port);
        write_var_int(buf, self.next_protocol.to_int());
        assert(final(buf)@ =~= old(buf)@ + handshake_body(self@)->0);
        Ok(())
    }
}

impl StatusRequestPacket {
    /// The request has an empty body: nothing is read.
    pub fn decode(buf: &mut Buffer) -> (r: Result<StatusRequestPacket, ()>)
        requires
            old(buf).wf(),
        ensures
            *final(buf) == *old(buf),
            r is Ok,
    {
        Ok(StatusRequestPacket)
    }

    /// The request has an empty body: nothing is written.
    pub fn encode(&self, buf: &mut Vec<u8>) -> (r: Result<(), ()>)
        ensures
            r is Ok,
            final(buf)@ == old(buf)@,
    {
        Ok(())
    }
}

impl PingPacket {
    pub fn decode(buf: &mut Buffer) -> (r: Result<PingPacket, ()>)
        requires
            old(buf).wf(),
        ensures
            final(buf).wf(),
            match parse_u64(old(buf).rest()) {
                Some((v, rest)) => r matches Ok(p) && p.payload == v && final(buf).rest() == rest,
                None => r is Err,
            },
    {
        let payload = buf.read_u64()?;
        Ok(PingPacket { payload })
    }

    pub fn encode(&self, buf: &mut Vec<u8>) -> (r: Result<(), ()>)
        ensures
            r is Ok,
            final(buf)@ == old(buf)@ + u64_bytes(self.payload),
    {
        write_u64(buf, self.payload);
        Ok(())
    }
}

impl PongPacket {
    pub fn decode(buf: &mut Buffer) -> (r: Result<PongPacket, ()>)
        requires
            old(buf).wf(),
        ensures
            final(buf).wf(),
            match parse_u64(old(buf).rest()) {
                Some((v, rest)) => r matches Ok(p) && p.payload == v && final(buf).rest() == rest,
                None => r is Err,
            },
    {
        let payload = buf.read_u64()?;
        Ok(PongPacket { payload })
    }

    pub fn encode(&self, buf: &mut Vec<u8>) -> (r: Result<(), ()>)
        ensures
            r is Ok,
            final(buf)@ == old(buf)@ + u64_bytes(self.payload),
    {
        write_u64(buf, self.payload);
        Ok(())
    }
}

impl StatusResponsePacket {
    pub fn decode(buf: &mut Buffer) -> (r: Result<StatusResponsePacket, ()>)
        requires
            old(buf).wf(),
        ensures
            final(buf).wf(),
            match parse_string(old(buf).rest()) {
                Some((t, rest)) => r matches Ok(p) && p.status@ == t && final(buf).rest() == rest,
                None => r is Err,
            },
    {
        let status = buf.read_string()?;
        Ok(StatusResponsePacket { status })
    }

    pub fn encode(&self, buf: &mut Vec<u8>) -> (r: Result<(), ()>)
        ensures
            match string_body(self.status@) {
                Some(b) => r is Ok && final(buf)@ == old(buf)@ + b,
                None => r is Err && final(buf)@ == old(buf)@,
            },
    {
        if !fits_length_prefix(self.status.as_str()) {
            return Err(());
        }
        write_string(buf, self.status.as_str());
        Ok(())
    }
}

impl LoginStartPacket {
    pub fn decode(buf: &mut Buffer) -> (r: Result<LoginStartPacket, ()>)
        requires
            old(buf).wf(),
        ensures
            final(buf).wf(),
            match parse_string(old(buf).rest()) {
                Some((t, rest)) => r matches Ok(p) && p.name@ == t && final(buf).rest() == rest,
                None => r is Err,
            },
    {
        let name = buf.read_string()?;
        Ok(LoginStartPacket { name })
    }

    pub fn encode(&self, buf: &mut Vec<u8>) -> (r: Result<(), ()>)
        ensures
            match string_body(self.name@) {
                Some(b) => r is Ok && final(buf)@ == old(buf)@ + b,
                None => r is Err && final(buf)@ == old(buf)@,
            },
    {
        if !fits_length_prefix(self.name.as_str()) {
            return Err(());
        }
        write_string(buf, self.name.as_str());
        Ok(())
    }
}

impl DisconnectPacket {
    pub fn decode(buf: &mut Buffer) -> (r: Result<DisconnectPacket, ()>)
        requires
            old(buf).wf(),
        ensures
            final(buf).wf(),
            match parse_string(old(buf).rest()) {
                Some((t, rest)) => r matches Ok(p) && p.reason@ == t && final(buf).rest() == rest,
                None => r is Err,
            },
    {
        let reason = buf.read_string()?;
        Ok(DisconnectPacket { reason })
    }

    pub fn encode(&self, buf: &mut Vec<u8>) -> (r: Result<(), ()>)
        ensures
            match string_body(self.reason@) {
                Some(b) => r is Ok && final(buf)@ == old(buf)@ + b,
                None => r is Err && final(buf)@ == old(buf)@,
            },
    {
        if !fits_length_prefix(self.reason.as_str()) {
            return Err(());
        }
        write_string(buf, self.reason.as_str());
        Ok(())
    }
}

impl CompressionPacket {
    pub fn decode(buf: &mut Buffer) -> (r: Result<CompressionPacket, ()>)
        requires
            old(buf).wf(),
        ensures
            final(buf).wf(),
            match parse_compression(old(buf).rest()) {
                Some((l, rest)) => r matches Ok(p) && p.size_limit == l && final(buf).rest() == rest,
                None => r is Err,
            },
    {
        let limit = buf.read_var_int()?;
        Ok(CompressionPacket { size_limit: if limit < 0 { None } else { Some(limit as usize) } })
    }

    pub fn encode(&self, buf: &mut Vec<u8>) -> (r: Result<(), ()>)
        ensures
            match compression_body(self.size_limit) {
                Some(b) => r is Ok && final(buf)@ == old(buf)@ + b,
                None => r is Err && final(buf)@ == old(buf)@,
            },
    {
        match self.size_limit {
            Some(size_limit) => {
                if size_limit > 0x7fff_ffff {
                    // A larger limit would read as negative on the other side.
                    return Err(());
                }
                write_var_int(buf, size_limit as i32);
            },
            None => write_var_int(buf, -1),
        }
        Ok(())
    }
}

impl LoginSuccessPacket {
    pub fn decode(buf: &mut Buffer) -> (r: Result<LoginSuccessPacket, ()>)
        requires
            old(buf).wf(),
        ensures
            final(buf).wf(),
            match parse_login_success(old(buf).rest()) {
                Some(((u, n), rest)) => r matches Ok(p) && p.uuid == u && p.name@ == n
                    && final(buf).rest() == rest,
                None => r is Err,
            },
    {
        let uuid = buf.read_uuid()?;
        let name = buf.read_string()?;
        Ok(LoginSuccessPacket { uuid, name })
    }

    pub fn encode(&self, buf: &mut Vec<u8>) -> (r: Result<(), ()>)
        ensures
            match login_success_body(self.uuid, self.name@) {
                Some(b) => r is Ok && final(buf)@ == old(buf)@ + b,
                None => r is Err && final(buf)@ == old(buf)@,
            },
    {
        if !fits_length_prefix(self.name.as_str()) {
            return Err(());
        }
        write_uuid(buf, self.uuid);
        write_string(buf, self.name.as_str());
        assert(final(buf)@ =~= old(buf)@ + login_success_body(self.uuid, self.name@)->0);
        Ok(())
    }
}

impl RawPacket {
    /// Writes the id, then the bytes verbatim.
    pub fn encode(&self, buf: &mut Vec<u8>)
        ensures
            final(buf)@ == old(buf)@.push(self.id) + self.data@,
    {
        buf.push(self.id);
        write_raw_bytes(buf, self.data.as_slice());
    }
}

} // verus!
