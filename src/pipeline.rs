//! The per-connection pipeline: its current sub-protocol, its optional
//! compressor and its input accumulator, with the inbound stages
//! (frame, decompress, decode) and the outbound ones (encode, compress,
//! frame).

use vstd::prelude::*;
use crate::buffer::Buffer;
use crate::buffer::var_int_bytes;
use crate::compressor::{
    compressed_body, decompressed, lemma_compress_round_trip, zlib_deflate, zlib_inflate, Compressor,
};
use crate::framing::{
    decode_frame, frame_bytes, lemma_frame_round_trip, FrameCodec, FrameDecode, MAX_FRAME_BODY,
};
use crate::protocol::Protocol;
use crate::wire_codec::{
    client_bound_bytes, client_bound_packet, lemma_client_bound_round_trip,
    lemma_server_bound_round_trip, server_bound_bytes, server_bound_packet, ClientBound,
    ClientWireCodec, PacketClientEnum, PacketServerEnum, ServerBound, ServerWireCodec,
};

verus! {

/// The packet bytes (id and body) a frame body carries, given the
/// compression threshold in force.
pub open spec fn frame_payload(threshold: Option<usize>, body: Seq<u8>) -> Option<Seq<u8>> {
    match threshold {
        Some(_) => decompressed(body),
        None => Some(body),
    }
}

/// The server-bound packet a frame body carries.
pub open spec fn server_bound_of_frame(
    protocol: Protocol,
    threshold: Option<usize>,
    body: Seq<u8>,
) -> Option<ServerBound> {
    match frame_payload(threshold, body) {
        Some(p) => if p.len() == 0 {
            None
        } else {
            server_bound_packet(protocol, p[0], p.skip(1))
        },
        None => None,
    }
}

/// The client-bound packet a frame body carries.
pub open spec fn client_bound_of_frame(
    protocol: Protocol,
    threshold: Option<usize>,
    body: Seq<u8>,
) -> Option<ClientBound> {
    match frame_payload(threshold, body) {
        Some(p) => if p.len() == 0 {
            None
        } else {
            client_bound_packet(protocol, p[0], p.skip(1))
        },
        None => None,
    }
}

/// The frame that carries packet bytes `payload`: compressed under a
/// threshold, then length-prefixed; none where the body would exceed the
/// largest frame.
pub open spec fn frame_of_payload(threshold: Option<usize>, payload: Seq<u8>) -> Option<Seq<u8>> {
    let body = match threshold {
        Some(t) => compressed_body(t, payload),
        None => Some(payload),
    };
    match body {
        Some(b) => if b.len() <= MAX_FRAME_BODY {
            Some(frame_bytes(b))
        } else {
            None
        },
        None => None,
    }
}

/// The frame that carries a client-bound packet.
pub open spec fn client_bound_frame(
    protocol: Protocol,
    threshold: Option<usize>,
    p: ClientBound,
) -> Option<Seq<u8>> {
    match client_bound_bytes(protocol, p) {
        Some(b) => frame_of_payload(threshold, b),
        None => None,
    }
}

/// The frame that carries a server-bound packet.
pub open spec fn server_bound_frame(
    protocol: Protocol,
    threshold: Option<usize>,
    p: ServerBound,
) -> Option<Seq<u8>> {
    match server_bound_bytes(protocol, p) {
        Some(b) => frame_of_payload(threshold, b),
        None => None,
    }
}

/// For every protocol, threshold and server-bound packet the protocol
/// carries, whose frame fits: a peer pipeline in the same protocol and with
/// the same threshold reads back exactly that packet from the frame,
/// whatever follows it, and leaves what follows. Under compression this
/// holds for packets below the threshold outright, and for the others
/// whenever zlib inflation inverts zlib deflation on the packet bytes.
pub proof fn lemma_server_bound_frame_round_trip(
    protocol: Protocol,
    threshold: Option<usize>,
    p: ServerBound,
    rest: Seq<u8>,
)
    requires
        server_bound_frame(protocol, threshold, p) is Some,
    ensures
        ({
            let b = server_bound_bytes(protocol, p)->0;
            (threshold is None || b.len() < threshold->0 || zlib_inflate(zlib_deflate(b)) == Some(
                b,
            )) ==> (decode_frame(server_bound_frame(protocol, threshold, p)->0 + rest) matches
                FrameDecode::Frame { body, rest: after } && after == rest
                && server_bound_of_frame(protocol, threshold, body) == Some(p))
        }),
{
    let b = server_bound_bytes(protocol, p)->0;
    lemma_server_bound_round_trip(protocol, p);
    lemma_payload_frame_round_trip(threshold, b, rest);
}

/// The client-bound counterpart, for every packet but a login success.
pub proof fn lemma_client_bound_frame_round_trip(
    protocol: Protocol,
    threshold: Option<usize>,
    p: ClientBound,
    rest: Seq<u8>,
)
    requires
        client_bound_frame(protocol, threshold, p) is Some,
        !(p is LoginSuccess),
    ensures
        ({
            let b = client_bound_bytes(protocol, p)->0;
            (threshold is None || b.len() < threshold->0 || zlib_inflate(zlib_deflate(b)) == Some(
                b,
            )) ==> (decode_frame(client_bound_frame(protocol, threshold, p)->0 + rest) matches
                FrameDecode::Frame { body, rest: after } && after == rest
                && client_bound_of_frame(protocol, threshold, body) == Some(p))
        }),
{
    let b = client_bound_bytes(protocol, p)->0;
    lemma_client_bound_round_trip(protocol, p);
    lemma_payload_frame_round_trip(threshold, b, rest);
}

/// Framing (and compressing) non-empty packet bytes and reading the frame
/// back gives the bytes, under the conditions above.
proof fn lemma_payload_frame_round_trip(threshold: Option<usize>, b: Seq<u8>, rest: Seq<u8>)
    requires
        frame_of_payload(threshold, b) is Some,
        b.len() >= 1,
    ensures
        (threshold is None || b.len() < threshold->0 || zlib_inflate(zlib_deflate(b)) == Some(b))
            ==> (decode_frame(frame_of_payload(threshold, b)->0 + rest) matches FrameDecode::Frame {
            body,
            rest: after,
        } && after == rest && frame_payload(threshold, body) == Some(b)),
{
    match threshold {
        None => {
            lemma_frame_round_trip(b, rest);
        },
        Some(t) => {
            let c = compressed_body(t, b)->0;
            lemma_frame_round_trip(c, rest);
            if b.len() < t {
                assert(c.len() == var_int_bytes(0).len() + b.len());
            }
            lemma_compress_round_trip(t, b);
        },
    }
}

/// One connection's codec state.
pub struct HandlerPipeline {
    protocol: Protocol,
    compressor: Option<Compressor>,
    read_buf: Vec<u8>,
}

impl HandlerPipeline {
    /// The sub-protocol in force.
    pub closed spec fn current_protocol(&self) -> Protocol {
        self.protocol
    }

    /// The compression threshold in force, if compression is enabled.
    pub closed spec fn threshold(&self) -> Option<usize> {
        match self.compressor {
            Some(c) => Some(c.size_limit),
            None => None,
        }
    }

    /// Bytes received and not yet decoded.
    pub closed spec fn pending(&self) -> Seq<u8> {
        self.read_buf@
    }

    /// A fresh pipeline: Handshake, no compression, nothing received.
    pub fn new() -> (r: HandlerPipeline)
        ensures
            r.current_protocol() == Protocol::Handshake,
            r.threshold() is None,
            r.pending() == Seq::<u8>::empty(),
    {
        HandlerPipeline { protocol: Protocol::Handshake, compressor: None, read_buf: Vec::new() }
    }

    pub fn protocol(&self) -> (r: Protocol)
        ensures
            r == self.current_protocol(),
    {
        self.protocol
    }

    pub fn set_protocol(&mut self, proto: Protocol)
        ensures
            final(self).current_protocol() == proto,
            final(self).threshold() == old(self).threshold(),
            final(self).pending() == old(self).pending(),
    {
        self.protocol = proto;
    }

    /// Installs a compressor with the given threshold, or removes it.
    pub fn enable_compression(&mut self, size_limit: Option<usize>)
        ensures
            final(self).threshold() == size_limit,
            final(self).current_protocol() == old(self).current_protocol(),
            final(self).pending() == old(self).pending(),
    {
        self.compressor = match size_limit {
            Some(size_limit) => Some(Compressor { size_limit }),
            None => None,
        };
    }

    /// Adds received bytes to the input accumulator.
    pub fn push_bytes(&mut self, data: &[u8])
        ensures
            final(self).pending() == old(self).pending() + data@,
            final(self).current_protocol() == old(self).current_protocol(),
            final(self).threshold() == old(self).threshold(),
    {
        crate::buffer::write_raw_bytes(&mut self.read_buf, data);
    }

    /// Decodes the next frame received from a client, if it is complete.
    pub fn try_read_server_bound(&mut self) -> (r: Result<Option<PacketClientEnum>, ()>)
        ensures
            final(self).current_protocol() == old(self).current_protocol(),
            final(self).threshold() == old(self).threshold(),
            match decode_frame(old(self).pending()) {
                FrameDecode::Frame { body, rest } => final(self).pending() == rest && match
                    server_bound_of_frame(
                    old(self).current_protocol(),
                    old(self).threshold(),
                    body,
                ) {
                    Some(m) => r matches Ok(Some(p)) && p@ == m,
                    None => r is Err,
                },
                FrameDecode::NeedMore => r matches Ok(None) && final(self).pending() == old(
                    self,
                ).pending(),
                FrameDecode::Malformed => r is Err && final(self).pending() == old(self).pending(),
            },
    {
        let frame = match FrameCodec::try_decode(&mut self.read_buf)? {
            Some(frame) => frame,
            None => return Ok(None),
        };
        let payload = match &self.compressor {
            Some(compressor) => compressor.decode(frame)?,
            None => frame,
        };
        let mut buf = Buffer::new(payload);
        let id = buf.read_u8()?;
        let packet = ClientWireCodec::read_packet(&self.protocol, id, &mut buf)?;
        Ok(Some(packet))
    }

    /// Decodes the next frame received from a server, if it is complete.
    pub fn try_read_client_bound(&mut self) -> (r: Result<Option<PacketServerEnum>, ()>)
        ensures
            final(self).current_protocol() == old(self).current_protocol(),
            final(self).threshold() == old(self).threshold(),
            match decode_frame(old(self).pending()) {
                FrameDecode::Frame { body, rest } => final(self).pending() == rest && match
                    client_bound_of_frame(
                    old(self).current_protocol(),
                    old(self).threshold(),
                    body,
                ) {
                    Some(m) => r matches Ok(Some(p)) && p@ == m,
                    None => r is Err,
                },
                FrameDecode::NeedMore => r matches Ok(None) && final(self).pending() == old(
                    self,
                ).pending(),
                FrameDecode::Malformed => r is Err && final(self).pending() == old(self).pending(),
            },
    {
        let frame = match FrameCodec::try_decode(&mut self.read_buf)? {
            Some(frame) => frame,
            None => return Ok(None),
        };
        let payload = match &self.compressor {
            Some(compressor) => compressor.decode(frame)?,
            None => frame,
        };
        let mut buf = Buffer::new(payload);
        let id = buf.read_u8()?;
        let packet = ServerWireCodec::read_packet(&self.protocol, id, &mut buf)?;
        Ok(Some(packet))
    }

    /// Compresses (where enabled) and frames packet bytes.
    fn frame_payload(&self, payload: Vec<u8>) -> (r: Result<Vec<u8>, ()>)
        ensures
            match frame_of_payload(self.threshold(), payload@) {
                Some(f) => r matches Ok(v) && v@ == f,
                None => r is Err,
            },
    {
        let body = match &self.compressor {
            Some(compressor) => compressor.encode(payload)?,
            None => payload,
        };
        FrameCodec::encode(body)
    }

    /// The frame that sends a packet to a client.
    pub fn encode_client_bound(&self, packet: &PacketServerEnum) -> (r: Result<Vec<u8>, ()>)
        ensures
            match client_bound_frame(self.current_protocol(), self.threshold(), packet@) {
                Some(f) => r matches Ok(v) && v@ == f,
                None => r is Err,
            },
    {
        let mut payload: Vec<u8> = Vec::new();
        ClientWireCodec::write_packet(&self.protocol, packet, &mut payload)?;
        assert(payload@ =~= client_bound_bytes(self.protocol, packet@)->0);
        self.frame_payload(payload)
    }

    /// The frame that sends a packet to a server.
    pub fn encode_server_bound(&self, packet: &PacketClientEnum) -> (r: Result<Vec<u8>, ()>)
        ensures
            match server_bound_frame(self.current_protocol(), self.threshold(), packet@) {
                Some(f) => r matches Ok(v) && v@ == f,
                None => r is Err,
            },
    {
        let mut payload: Vec<u8> = Vec::new();
        ServerWireCodec::write_packet(&self.protocol, packet, &mut payload)?;
        assert(payload@ =~= server_bound_bytes(self.protocol, packet@)->0);
        self.frame_payload(payload)
    }
}

} // verus!
