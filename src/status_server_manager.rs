//! The status probe: a short-lived upstream session that fetches the
//! server status for a client's status request.

use vstd::prelude::*;
use crate::framing::FrameDecode;
use crate::packets::{HandshakeModel, HandshakePacket, StatusRequestPacket};
use crate::pipeline::{client_bound_of_frame, server_bound_frame, HandlerPipeline};
use crate::protocol::Protocol;
use crate::wire_codec::{PacketClientEnum, PacketServerEnum, ServerBound};

verus! {

/// Protocol version the probe's handshake announces.
pub const PROBE_PROTOCOL_VERSION: i32 = 57;

/// Port the probe's handshake announces.
pub const PROBE_PORT: u16 = 25565;

/// The handshake a probe sends: a fixed version, address and port, asking
/// for Status.
pub open spec fn probe_handshake() -> HandshakeModel {
    HandshakeModel {
        protocol_version: PROBE_PROTOCOL_VERSION,
        server_address: "127.0.0.1"@,
        server_port: PROBE_PORT,
        next_protocol: Protocol::Status,
    }
}

/// The bytes that open a probe: its handshake under Handshake, then a
/// status request under Status.
pub open spec fn probe_opening(threshold: Option<usize>) -> Option<Seq<u8>> {
    match (
        server_bound_frame(Protocol::Handshake, threshold, ServerBound::Handshake(probe_handshake())),
        server_bound_frame(Protocol::Status, threshold, ServerBound::StatusRequest),
    ) {
        (Some(a), Some(b)) => Some(a + b),
        _ => None,
    }
}

/// What a probe reports after an event.
pub enum ProbeStep {
    /// Nothing to report yet.
    Continue,
    /// The probe is over: the status text, or `None` on failure.
    Complete(Option<String>),
}

/// A status probe of one upstream server.
pub struct StatusServerManager {
    pipeline: HandlerPipeline,
    done: bool,
}

impl StatusServerManager {
    pub closed spec fn protocol(&self) -> Protocol {
        self.pipeline.current_protocol()
    }

    pub closed spec fn threshold(&self) -> Option<usize> {
        self.pipeline.threshold()
    }

    pub closed spec fn pending(&self) -> Seq<u8> {
        self.pipeline.pending()
    }

    /// Whether the probe has already reported its outcome.
    pub closed spec fn is_done(&self) -> bool {
        self.done
    }

    pub fn new() -> (r: StatusServerManager)
        ensures
            r.protocol() == Protocol::Handshake,
            r.threshold() is None,
            r.pending() == Seq::<u8>::empty(),
            !r.is_done(),
    {
        StatusServerManager { pipeline: HandlerPipeline::new(), done: false }
    }

    /// The bytes that start the probe; the pipeline is then in Status.
    pub fn started(&mut self) -> (r: Result<Vec<u8>, ()>)
        ensures
            final(self).protocol() == Protocol::Status,
            final(self).threshold() == old(self).threshold(),
            final(self).pending() == old(self).pending(),
            final(self).is_done() == old(self).is_done(),
            match probe_opening(old(self).threshold()) {
                Some(b) => r matches Ok(v) && v@ == b,
                None => r is Err,
            },
    {
        let handshake = PacketClientEnum::Handshake(
            HandshakePacket {
                protocol_version: PROBE_PROTOCOL_VERSION,
                server_address: "127.0.0.1".to_owned(),
                server_port: PROBE_PORT,
                next_protocol: Protocol::Status,
            },
        );
        self.pipeline.set_protocol(Protocol::Handshake);
        let first = self.pipeline.encode_server_bound(&handshake);
        self.pipeline.set_protocol(Protocol::Status);
        let second = self.pipeline.encode_server_bound(
            &PacketClientEnum::StatusRequest(StatusRequestPacket),
        );
        match (first, second) {
            (Ok(mut a), Ok(b)) => {
                crate::buffer::write_raw_bytes(&mut a, b.as_slice());
                Ok(a)
            },
            _ => Err(()),
        }
    }

    /// Adds bytes read from the upstream socket.
    pub fn receive(&mut self, data: &[u8])
        ensures
            final(self).pending() == old(self).pending() + data@,
            final(self).protocol() == old(self).protocol(),
            final(self).threshold() == old(self).threshold(),
            final(self).is_done() == old(self).is_done(),
    {
        self.pipeline.push_bytes(data);
    }

    /// The next packet from the upstream server, if a whole frame is there.
    pub fn next_packet(&mut self) -> (r: Result<Option<PacketServerEnum>, ()>)
        ensures
            final(self).protocol() == old(self).protocol(),
            final(self).threshold() == old(self).threshold(),
            final(self).is_done() == old(self).is_done(),
            match crate::framing::decode_frame(old(self).pending()) {
                FrameDecode::Frame { body, rest } => final(self).pending() == rest && match
                    client_bound_of_frame(old(self).protocol(), old(self).threshold(), body) {
                    Some(m) => r matches Ok(Some(p)) && p@ == m,
                    None => r is Err,
                },
                FrameDecode::NeedMore => r matches Ok(None) && final(self).pending() == old(
                    self,
                ).pending(),
                FrameDecode::Malformed => r is Err && final(self).pending() == old(self).pending(),
            },
    {
        self.pipeline.try_read_client_bound()
    }

    /// Reacts to a packet (or a failure to read one). The first status
    /// response completes the probe with its text; a pong is accepted
    /// silently; anything else completes it with failure. Once complete,
    /// the probe reports nothing more.
    pub fn handle(&mut self, packet: Result<PacketServerEnum, ()>) -> (r: ProbeStep)
        ensures
            final(self).protocol() == old(self).protocol(),
            final(self).threshold() == old(self).threshold(),
            final(self).pending() == old(self).pending(),
            old(self).is_done() ==> r is Continue && final(self).is_done(),
            !old(self).is_done() ==> match packet {
                Ok(PacketServerEnum::StatusResponse(p)) => r matches ProbeStep::Complete(Some(s))
                    && s@ == p.status@ && final(self).is_done(),
                Ok(PacketServerEnum::Pong(_)) => r is Continue && !final(self).is_done(),
                _ => r matches ProbeStep::Complete(None) && final(self).is_done(),
            },
    {
        if self.done {
            return ProbeStep::Continue;
        }
        match packet {
            Ok(PacketServerEnum::StatusResponse(p)) => {
                self.done = true;
                ProbeStep::Complete(Some(p.status))
            },
            Ok(PacketServerEnum::Pong(_)) => ProbeStep::Continue,
            _ => {
                self.done = true;
                ProbeStep::Complete(None)
            },
        }
    }

    /// The connection ended: a probe still waiting completes with failure.
    pub fn finished(&mut self) -> (r: ProbeStep)
        ensures
            final(self).is_done(),
            final(self).protocol() == old(self).protocol(),
            final(self).threshold() == old(self).threshold(),
            final(self).pending() == old(self).pending(),
            old(self).is_done() ==> r is Continue,
            !old(self).is_done() ==> r matches ProbeStep::Complete(None),
    {
        if self.done {
            ProbeStep::Continue
        } else {
            self.done = true;
            ProbeStep::Complete(None)
        }
    }
}

} // verus!
