use mineroute::buffer::Buffer;
use mineroute::packets::{
    CompressionPacket, DisconnectPacket, HandshakePacket, LoginStartPacket, LoginSuccessPacket,
    PingPacket, PongPacket, RawPacket, StatusRequestPacket, StatusResponsePacket,
};
use mineroute::protocol::Protocol;
use mineroute::wire_codec::{ClientWireCodec, PacketClientEnum, PacketServerEnum, ServerWireCodec};

fn round_trip_server_bound(protocol: Protocol, packet: PacketClientEnum) {
    let mut bytes = Vec::new();
    ServerWireCodec::write_packet(&protocol, &packet, &mut bytes).unwrap();
    let mut buf = Buffer::new(bytes[1..].to_vec());
    assert_eq!(ClientWireCodec::read_packet(&protocol, bytes[0], &mut buf), Ok(packet));
}

fn round_trip_client_bound(protocol: Protocol, packet: PacketServerEnum) {
    let mut bytes = Vec::new();
    ClientWireCodec::write_packet(&protocol, &packet, &mut bytes).unwrap();
    let mut buf = Buffer::new(bytes[1..].to_vec());
    assert_eq!(ServerWireCodec::read_packet(&protocol, bytes[0], &mut buf), Ok(packet));
}

#[test]
fn protocol_wire_values() {
    assert_eq!(Protocol::from_int(0), Some(Protocol::Play));
    assert_eq!(Protocol::from_int(1), Some(Protocol::Status));
    assert_eq!(Protocol::from_int(2), Some(Protocol::Login));
    assert_eq!(Protocol::from_int(3), None);
    assert_eq!(Protocol::from_int(-1), None);
    assert_eq!(Protocol::Play.to_int(), 0);
    assert_eq!(Protocol::Status.to_int(), 1);
    assert_eq!(Protocol::Login.to_int(), 2);
}

#[test]
fn handshake_bytes() {
    let packet = HandshakePacket {
        protocol_version: 754,
        server_address: "a.mc.local".to_string(),
        server_port: 25565,
        next_protocol: Protocol::Login,
    };
    let mut bytes = Vec::new();
    packet.encode(&mut bytes).unwrap();
    let mut expected = vec![0xf2, 0x05, 10];
    expected.extend_from_slice(b"a.mc.local");
    expected.extend_from_slice(&[0x63, 0xdd, 2]);
    assert_eq!(bytes, expected);
    let mut buf = Buffer::new(bytes);
    assert_eq!(HandshakePacket::decode(&mut buf), Ok(packet));
}

#[test]
fn handshake_with_handshake_next_protocol_is_refused() {
    let packet = HandshakePacket {
        protocol_version: 1,
        server_address: String::new(),
        server_port: 1,
        next_protocol: Protocol::Handshake,
    };
    let mut bytes = vec![9];
    assert_eq!(packet.encode(&mut bytes), Err(()));
    assert_eq!(bytes, vec![9]);
}

#[test]
fn handshake_with_invalid_next_protocol_fails() {
    let mut bytes = vec![1, 0, 0, 1, 7];
    let mut buf = Buffer::new(bytes.split_off(0));
    assert_eq!(HandshakePacket::decode(&mut buf), Err(()));
}

#[test]
fn packet_table_round_trips() {
    round_trip_server_bound(
        Protocol::Handshake,
        PacketClientEnum::Handshake(HandshakePacket {
            protocol_version: -5,
            server_address: "x".to_string(),
            server_port: 1,
            next_protocol: Protocol::Status,
        }),
    );
    round_trip_server_bound(Protocol::Status, PacketClientEnum::StatusRequest(StatusRequestPacket));
    round_trip_server_bound(Protocol::Status, PacketClientEnum::Ping(PingPacket { payload: u64::MAX }));
    round_trip_server_bound(Protocol::Login, PacketClientEnum::LoginStart(LoginStartPacket { name: "Notch".to_string() }));
    round_trip_server_bound(Protocol::Play, PacketClientEnum::Raw(RawPacket { id: 0x42, data: vec![1, 2, 3] }));
    round_trip_client_bound(Protocol::Status, PacketServerEnum::StatusResponse(StatusResponsePacket { status: "{}".to_string() }));
    round_trip_client_bound(Protocol::Status, PacketServerEnum::Pong(PongPacket { payload: 7 }));
    round_trip_client_bound(Protocol::Login, PacketServerEnum::Disconnect(DisconnectPacket { reason: "r".to_string() }));
    round_trip_client_bound(Protocol::Login, PacketServerEnum::Compression(CompressionPacket { size_limit: Some(256) }));
    round_trip_client_bound(Protocol::Login, PacketServerEnum::Compression(CompressionPacket { size_limit: None }));
    round_trip_client_bound(
        Protocol::Login,
        PacketServerEnum::LoginSuccess(LoginSuccessPacket { uuid: 0xdeadbeef, name: "N".to_string() }),
    );
    round_trip_client_bound(Protocol::Play, PacketServerEnum::Raw(RawPacket { id: 0, data: vec![] }));
}

#[test]
fn compression_packet_bytes() {
    let mut bytes = Vec::new();
    CompressionPacket { size_limit: None }.encode(&mut bytes).unwrap();
    assert_eq!(bytes, vec![0xff, 0xff, 0xff, 0xff, 0x0f]);
    let mut too_large = Vec::new();
    assert_eq!(CompressionPacket { size_limit: Some(1usize << 31) }.encode(&mut too_large), Err(()));
    let mut buf = Buffer::new(vec![0xff, 0xff, 0xff, 0xff, 0x0f]);
    assert_eq!(CompressionPacket::decode(&mut buf), Ok(CompressionPacket { size_limit: None }));
}

#[test]
fn unknown_ids_fail_outside_play() {
    let mut buf = Buffer::new(vec![]);
    assert_eq!(ClientWireCodec::read_packet(&Protocol::Handshake, 1, &mut buf), Err(()));
    assert_eq!(ClientWireCodec::read_packet(&Protocol::Status, 2, &mut buf), Err(()));
    assert_eq!(ClientWireCodec::read_packet(&Protocol::Login, 1, &mut buf), Err(()));
    assert_eq!(ServerWireCodec::read_packet(&Protocol::Handshake, 0, &mut buf), Err(()));
    assert_eq!(ServerWireCodec::read_packet(&Protocol::Login, 1, &mut buf), Err(()));
    let mut raw = Buffer::new(vec![5, 6]);
    assert_eq!(
        ClientWireCodec::read_packet(&Protocol::Play, 0x99, &mut raw),
        Ok(PacketClientEnum::Raw(RawPacket { id: 0x99, data: vec![5, 6] }))
    );
}

#[test]
fn packets_outside_their_protocol_are_refused() {
    let mut bytes = vec![1];
    let pong = PacketServerEnum::Pong(PongPacket { payload: 1 });
    assert_eq!(ClientWireCodec::write_packet(&Protocol::Login, &pong, &mut bytes), Err(()));
    assert_eq!(ClientWireCodec::write_packet(&Protocol::Handshake, &pong, &mut bytes), Err(()));
    let raw = PacketClientEnum::Raw(RawPacket { id: 1, data: vec![] });
    assert_eq!(ServerWireCodec::write_packet(&Protocol::Status, &raw, &mut bytes), Err(()));
    assert_eq!(bytes, vec![1]);
}

#[test]
fn login_success_with_invalid_uuid_fails() {
    let mut body = Vec::new();
    mineroute::buffer::write_string(&mut body, "zzz");
    mineroute::buffer::write_string(&mut body, "N");
    let mut buf = Buffer::new(body);
    assert_eq!(ServerWireCodec::read_packet(&Protocol::Login, 2, &mut buf), Err(()));
}

#[test]
fn reading_a_packet_consumes_its_body() {
    let packet = PacketClientEnum::Handshake(HandshakePacket {
        protocol_version: 754,
        server_address: "h".to_string(),
        server_port: 1,
        next_protocol: Protocol::Status,
    });
    let mut bytes = Vec::new();
    ServerWireCodec::write_packet(&Protocol::Handshake, &packet, &mut bytes).unwrap();
    let mut body = bytes[1..].to_vec();
    body.extend_from_slice(&[0xee, 0xff]);
    let mut buf = Buffer::new(body);
    assert_eq!(ClientWireCodec::read_packet(&Protocol::Handshake, 0, &mut buf), Ok(packet));
    assert_eq!(buf.remaining_bytes(), vec![0xee, 0xff]);
    let mut raw = Buffer::new(vec![1, 2, 3]);
    ClientWireCodec::read_packet(&Protocol::Play, 9, &mut raw).unwrap();
    assert_eq!(raw.remaining(), 0);
}

#[test]
fn login_success_is_always_written() {
    let packet = PacketServerEnum::LoginSuccess(LoginSuccessPacket { uuid: u128::MAX, name: String::new() });
    let mut bytes = Vec::new();
    assert_eq!(ClientWireCodec::write_packet(&Protocol::Login, &packet, &mut bytes), Ok(()));
    assert_eq!(bytes[0], 2);
    assert_eq!(bytes[1], 36);
    assert_eq!(&bytes[2..38], "ffffffff-ffff-ffff-ffff-ffffffffffff".as_bytes());
    assert_eq!(bytes[38], 0);
}
