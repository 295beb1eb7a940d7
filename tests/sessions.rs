use mineroute::manager::HandlerMessage;
use mineroute::packets::{
    CompressionPacket, HandshakePacket, LoginStartPacket, LoginSuccessPacket, PingPacket,
    RawPacket, StatusRequestPacket, StatusResponsePacket,
};
use mineroute::pipeline::HandlerPipeline;
use mineroute::protocol::Protocol;
use mineroute::proxy_client_manager::{ClientAction, ClientPhase, ProxyClientManager};
use mineroute::proxy_server_manager::{ProxyServerManager, UpstreamAction};
use mineroute::server_state::{Configuration, IpAddress, ServerConfig, SocketAddress};
use mineroute::status_server_manager::{ProbeStep, StatusServerManager};
use mineroute::wire_codec::{PacketClientEnum, PacketServerEnum};

const STATUS_JSON: &str = "{\"version\":{\"name\":\"1.16.5\",\"protocol\":754},\"players\":{\"max\":20,\"online\":0},\"description\":{\"text\":\"hi\"}}";

fn local(port: u16) -> SocketAddress {
    SocketAddress { ip: IpAddress::V4([127, 0, 0, 1]), port }
}

fn table() -> Configuration {
    let mut config = Configuration::new();
    config.add_server("a.mc.local", ServerConfig::new(local(25566)));
    config.add_server("b.mc.local", ServerConfig::new(local(25567)));
    config
}

fn handshake(address: &str, next: Protocol) -> HandshakePacket {
    HandshakePacket {
        protocol_version: 754,
        server_address: address.to_string(),
        server_port: 25565,
        next_protocol: next,
    }
}

/// Sends one packet from the test client through the session's pipeline.
fn client_sends(
    session: &mut ProxyClientManager,
    config: &mut Configuration,
    client: &HandlerPipeline,
    packet: PacketClientEnum,
) -> Vec<ClientAction> {
    let bytes = client.encode_server_bound(&packet).unwrap();
    session.receive(&bytes);
    let decoded = session.next_packet().map(|p| p.unwrap());
    session.handle(config, decoded)
}

/// The packets that the bytes written to the test client decode to.
fn client_reads(client: &mut HandlerPipeline, bytes: &[u8]) -> PacketServerEnum {
    client.push_bytes(bytes);
    client.try_read_client_bound().unwrap().unwrap()
}

fn sent_bytes(actions: &[ClientAction]) -> Vec<u8> {
    assert_eq!(actions.len(), 1);
    match &actions[0] {
        ClientAction::SendToClient(bytes) => bytes.clone(),
        _ => panic!("expected bytes for the client"),
    }
}

fn is_close(actions: &[ClientAction]) -> bool {
    actions.len() == 1 && matches!(actions[0], ClientAction::Close)
}

fn players(config: &Configuration, host: &str) -> Vec<String> {
    config.get_server(host).unwrap().players.clone()
}

struct Proxied {
    config: Configuration,
    session: ProxyClientManager,
    upstream: ProxyServerManager,
    client: HandlerPipeline,
    server: HandlerPipeline,
}

/// Runs the login of player `N` through `b.mc.local`, up to the point where
/// the upstream session is attached and the server has read the login.
fn login() -> Proxied {
    let mut config = table();
    let mut session = ProxyClientManager::new();
    let mut client = HandlerPipeline::new();
    let actions = client_sends(
        &mut session,
        &mut config,
        &client,
        PacketClientEnum::Handshake(handshake("b.mc.local", Protocol::Login)),
    );
    assert!(actions.is_empty());
    client.set_protocol(Protocol::Login);
    assert!(players(&config, "b.mc.local").is_empty());
    let mut actions = client_sends(
        &mut session,
        &mut config,
        &client,
        PacketClientEnum::LoginStart(LoginStartPacket { name: "N".to_string() }),
    );
    assert_eq!(players(&config, "b.mc.local"), vec!["N".to_string()]);
    assert_eq!(session.state(), ClientPhase::Forwarding);
    assert_eq!(actions.len(), 1);
    let (address, hs, ls) = match actions.remove(0) {
        ClientAction::OpenUpstream { address, handshake, login } => (address, handshake, login),
        _ => panic!("expected the upstream to be opened"),
    };
    assert_eq!(address, local(25567));
    let mut upstream = ProxyServerManager::new();
    let opening = upstream.start(hs, ls).unwrap();
    let mut server = HandlerPipeline::new();
    server.push_bytes(&opening);
    assert_eq!(
        server.try_read_server_bound(),
        Ok(Some(PacketClientEnum::Handshake(handshake("b.mc.local", Protocol::Login))))
    );
    server.set_protocol(Protocol::Login);
    assert_eq!(
        server.try_read_server_bound(),
        Ok(Some(PacketClientEnum::LoginStart(LoginStartPacket { name: "N".to_string() })))
    );
    assert!(session.upstream_opened(true).is_empty());
    Proxied { config, session, upstream, client, server }
}

/// The server sends `packet`; the upstream session reacts and its messages
/// are handed to the client session; the bytes written to the client.
fn server_sends(p: &mut Proxied, packet: PacketServerEnum) -> Vec<Vec<u8>> {
    let bytes = p.server.encode_client_bound(&packet).unwrap();
    p.upstream.receive(&bytes);
    let decoded = p.upstream.next_packet().map(|x| x.unwrap());
    let mut written = Vec::new();
    for action in p.upstream.handle(decoded) {
        match action {
            UpstreamAction::ToClient(message) => {
                for a in p.session.handle_message(message) {
                    match a {
                        ClientAction::SendToClient(b) => written.push(b),
                        _ => panic!("unexpected client action"),
                    }
                }
            },
            _ => panic!("unexpected upstream action"),
        }
    }
    written
}

/// The client sends `packet`; the bytes written to the upstream socket.
fn client_sends_upstream(p: &mut Proxied, packet: PacketClientEnum) -> Vec<u8> {
    let mut actions = client_sends(&mut p.session, &mut p.config, &p.client, packet);
    assert_eq!(actions.len(), 1);
    let message = match actions.remove(0) {
        ClientAction::ToUpstream(m) => m,
        _ => panic!("expected a message for the upstream"),
    };
    let mut out = p.upstream.handle_message(message);
    assert_eq!(out.len(), 1);
    match out.remove(0) {
        UpstreamAction::SendToServer(b) => b,
        _ => panic!("expected bytes for the server"),
    }
}

fn finish_login(p: &mut Proxied, uuid: u128) {
    let written = server_sends(
        p,
        PacketServerEnum::LoginSuccess(LoginSuccessPacket { uuid, name: "N".to_string() }),
    );
    assert_eq!(written.len(), 1);
    assert_eq!(
        client_reads(&mut p.client, &written[0]),
        PacketServerEnum::LoginSuccess(LoginSuccessPacket { uuid, name: "N".to_string() })
    );
    p.client.set_protocol(Protocol::Play);
    p.server.set_protocol(Protocol::Play);
}

#[test]
fn unknown_host_is_closed_without_response() {
    let mut config = Configuration::new();
    let mut session = ProxyClientManager::new();
    let client = HandlerPipeline::new();
    let actions = client_sends(
        &mut session,
        &mut config,
        &client,
        PacketClientEnum::Handshake(handshake("x.mc", Protocol::Login)),
    );
    assert!(is_close(&actions));
    assert_eq!(session.state(), ClientPhase::Closed);
}

#[test]
fn handshake_asking_for_play_is_closed() {
    let mut config = table();
    let mut session = ProxyClientManager::new();
    let client = HandlerPipeline::new();
    let actions = client_sends(
        &mut session,
        &mut config,
        &client,
        PacketClientEnum::Handshake(handshake("a.mc.local", Protocol::Play)),
    );
    assert!(is_close(&actions));
}

#[test]
fn status_then_ping() {
    let mut config = table();
    let mut session = ProxyClientManager::new();
    let mut client = HandlerPipeline::new();
    let actions = client_sends(
        &mut session,
        &mut config,
        &client,
        PacketClientEnum::Handshake(handshake("a.mc.local", Protocol::Status)),
    );
    assert!(actions.is_empty());
    client.set_protocol(Protocol::Status);
    let actions = client_sends(
        &mut session,
        &mut config,
        &client,
        PacketClientEnum::StatusRequest(StatusRequestPacket),
    );
    assert_eq!(actions.len(), 1);
    match &actions[0] {
        ClientAction::FetchStatus(address) => assert_eq!(*address, local(25566)),
        _ => panic!("expected a status probe"),
    }

    // The probe against the upstream.
    let mut probe = StatusServerManager::new();
    let opening = probe.started().unwrap();
    let mut server = HandlerPipeline::new();
    server.push_bytes(&opening);
    assert_eq!(
        server.try_read_server_bound(),
        Ok(Some(PacketClientEnum::Handshake(HandshakePacket {
            protocol_version: 57,
            server_address: "127.0.0.1".to_string(),
            server_port: 25565,
            next_protocol: Protocol::Status,
        })))
    );
    server.set_protocol(Protocol::Status);
    assert_eq!(
        server.try_read_server_bound(),
        Ok(Some(PacketClientEnum::StatusRequest(StatusRequestPacket)))
    );
    let reply = server
        .encode_client_bound(&PacketServerEnum::StatusResponse(StatusResponsePacket {
            status: STATUS_JSON.to_string(),
        }))
        .unwrap();
    probe.receive(&reply);
    let packet = probe.next_packet().map(|p| p.unwrap());
    let status = match probe.handle(packet) {
        ProbeStep::Complete(Some(s)) => s,
        _ => panic!("expected the status"),
    };
    assert_eq!(status, STATUS_JSON);

    let bytes = sent_bytes(&session.status_fetched(Some(status)));
    assert_eq!(
        client_reads(&mut client, &bytes),
        PacketServerEnum::StatusResponse(StatusResponsePacket { status: STATUS_JSON.to_string() })
    );
    assert!(session.status_fetched(Some(STATUS_JSON.to_string())).is_empty());

    let actions = client_sends(
        &mut session,
        &mut config,
        &client,
        PacketClientEnum::Ping(PingPacket { payload: 42 }),
    );
    let bytes = sent_bytes(&actions);
    assert_eq!(bytes, vec![9, 1, 0, 0, 0, 0, 0, 0, 0, 42]);
    assert_eq!(
        client_reads(&mut client, &bytes),
        PacketServerEnum::Pong(mineroute::packets::PongPacket { payload: 42 })
    );
}

#[test]
fn second_status_request_is_closed() {
    let mut config = table();
    let mut session = ProxyClientManager::new();
    let mut client = HandlerPipeline::new();
    client_sends(
        &mut session,
        &mut config,
        &client,
        PacketClientEnum::Handshake(handshake("a.mc.local", Protocol::Status)),
    );
    client.set_protocol(Protocol::Status);
    let request = PacketClientEnum::StatusRequest(StatusRequestPacket);
    assert_eq!(client_sends(&mut session, &mut config, &client, request.clone()).len(), 1);
    assert!(is_close(&client_sends(&mut session, &mut config, &client, request)));
}

#[test]
fn failed_probe_closes_the_client() {
    let mut config = table();
    let mut session = ProxyClientManager::new();
    let mut client = HandlerPipeline::new();
    client_sends(
        &mut session,
        &mut config,
        &client,
        PacketClientEnum::Handshake(handshake("a.mc.local", Protocol::Status)),
    );
    client.set_protocol(Protocol::Status);
    client_sends(&mut session, &mut config, &client, PacketClientEnum::StatusRequest(StatusRequestPacket));
    assert!(is_close(&session.status_fetched(None)));

    let mut probe = StatusServerManager::new();
    assert!(matches!(probe.finished(), ProbeStep::Complete(None)));
    assert!(matches!(probe.finished(), ProbeStep::Continue));
}

#[test]
fn probe_accepts_pong_and_fails_on_other_packets() {
    let mut probe = StatusServerManager::new();
    probe.started().unwrap();
    let pong = PacketServerEnum::Pong(mineroute::packets::PongPacket { payload: 1 });
    assert!(matches!(probe.handle(Ok(pong)), ProbeStep::Continue));
    assert!(matches!(probe.handle(Err(())), ProbeStep::Complete(None)));
    assert!(matches!(probe.handle(Err(())), ProbeStep::Continue));
}

#[test]
fn login_without_compression() {
    let mut p = login();
    finish_login(&mut p, 0x1234);
    assert_eq!(p.upstream.next_packet(), Ok(None));
    let upstream_bytes = client_sends_upstream(
        &mut p,
        PacketClientEnum::Raw(RawPacket { id: 0x01, data: vec![0xaa] }),
    );
    assert_eq!(upstream_bytes, vec![2, 0x01, 0xaa]);
    let written = server_sends(&mut p, PacketServerEnum::Raw(RawPacket { id: 0x02, data: vec![0xbb, 0xcc] }));
    assert_eq!(written, vec![vec![3, 0x02, 0xbb, 0xcc]]);
    assert_eq!(players(&p.config, "b.mc.local"), vec!["N".to_string()]);
}

#[test]
fn login_with_compression() {
    let mut p = login();
    let written = server_sends(
        &mut p,
        PacketServerEnum::Compression(CompressionPacket { size_limit: Some(256) }),
    );
    assert_eq!(written.len(), 1);
    assert_eq!(written[0], vec![3, 3, 0x80, 0x02]);
    p.client.enable_compression(Some(256));
    p.server.enable_compression(Some(256));
    finish_login(&mut p, 7);

    let mut small = vec![0x05u8];
    small.extend(std::iter::repeat(0x11).take(99));
    let written = server_sends(&mut p, PacketServerEnum::Raw(RawPacket { id: 0x05, data: small[1..].to_vec() }));
    assert_eq!(written[0][0], 101);
    assert_eq!(written[0][1], 0);
    assert_eq!(&written[0][2..], &small[..]);

    let large_data: Vec<u8> = (0..999u32).map(|i| (i % 13) as u8).collect();
    let mut large = vec![0x06u8];
    large.extend_from_slice(&large_data);
    let written = server_sends(&mut p, PacketServerEnum::Raw(RawPacket { id: 0x06, data: large_data.clone() }));
    let frame = &written[0];
    let mut buf = mineroute::buffer::Buffer::new(frame.clone());
    let body_len = buf.read_var_int().unwrap() as usize;
    let body = buf.remaining_bytes();
    assert_eq!(body.len(), body_len);
    assert_eq!(&body[..2], &[0xe8, 0x07]);
    assert_eq!(&body[2..], &deflate::deflate_bytes_zlib(&large)[..]);
    assert_eq!(
        client_reads(&mut p.client, frame),
        PacketServerEnum::Raw(RawPacket { id: 0x06, data: large_data.clone() })
    );

    let upstream_bytes = client_sends_upstream(&mut p, PacketClientEnum::Raw(RawPacket { id: 0x07, data: large_data.clone() }));
    let mut server_side = HandlerPipeline::new();
    server_side.set_protocol(Protocol::Play);
    server_side.enable_compression(Some(256));
    server_side.push_bytes(&upstream_bytes);
    assert_eq!(
        server_side.try_read_server_bound(),
        Ok(Some(PacketClientEnum::Raw(RawPacket { id: 0x07, data: large_data })))
    );
}

#[test]
fn client_disconnect_mid_play() {
    let mut p = login();
    finish_login(&mut p, 1);
    let mut actions = p.session.finished(&mut p.config);
    assert!(players(&p.config, "b.mc.local").is_empty());
    assert_eq!(actions.len(), 1);
    let message = match actions.remove(0) {
        ClientAction::ToUpstream(m) => m,
        _ => panic!("expected the upstream to be told"),
    };
    assert!(matches!(message, HandlerMessage::Disconnect));
    let out = p.upstream.handle_message(message);
    assert!(out.len() == 1 && matches!(out[0], UpstreamAction::Close));
    assert!(p.session.finished(&mut p.config).is_empty());
    assert!(players(&p.config, "b.mc.local").is_empty());
}

#[test]
fn upstream_close_disconnects_the_client() {
    let mut p = login();
    let actions = p.upstream.finished();
    assert_eq!(actions.len(), 1);
    for action in actions {
        match action {
            UpstreamAction::ToClient(m) => assert!(is_close(&p.session.handle_message(m))),
            _ => panic!("expected a message for the client"),
        }
    }
}

#[test]
fn admin_deletes_active_route() {
    let mut p = login();
    finish_login(&mut p, 2);
    let removed = p.config.remove_server("b.mc.local").unwrap();
    assert_eq!(removed.upstream, local(25567));
    assert_eq!(removed.players, vec!["N".to_string()]);
    let upstream_bytes = client_sends_upstream(&mut p, PacketClientEnum::Raw(RawPacket { id: 1, data: vec![2] }));
    assert_eq!(upstream_bytes, vec![2, 1, 2]);

    let mut other = ProxyClientManager::new();
    let client = HandlerPipeline::new();
    let actions = client_sends(
        &mut other,
        &mut p.config,
        &client,
        PacketClientEnum::Handshake(handshake("b.mc.local", Protocol::Login)),
    );
    assert!(is_close(&actions));

    p.session.finished(&mut p.config);
    assert!(p.config.get_server("b.mc.local").is_none());
}

#[test]
fn login_after_route_removed_is_closed() {
    let mut config = table();
    let mut session = ProxyClientManager::new();
    let mut client = HandlerPipeline::new();
    client_sends(
        &mut session,
        &mut config,
        &client,
        PacketClientEnum::Handshake(handshake("b.mc.local", Protocol::Login)),
    );
    client.set_protocol(Protocol::Login);
    config.remove_server("b.mc.local");
    let actions = client_sends(
        &mut session,
        &mut config,
        &client,
        PacketClientEnum::LoginStart(LoginStartPacket { name: "N".to_string() }),
    );
    assert!(is_close(&actions));
}

#[test]
fn upstream_failure_closes_the_client() {
    let mut config = table();
    let mut session = ProxyClientManager::new();
    let mut client = HandlerPipeline::new();
    client_sends(
        &mut session,
        &mut config,
        &client,
        PacketClientEnum::Handshake(handshake("b.mc.local", Protocol::Login)),
    );
    client.set_protocol(Protocol::Login);
    client_sends(
        &mut session,
        &mut config,
        &client,
        PacketClientEnum::LoginStart(LoginStartPacket { name: "M".to_string() }),
    );
    assert!(is_close(&session.upstream_opened(false)));
    session.finished(&mut config);
    assert!(players(&config, "b.mc.local").is_empty());
}

#[test]
fn decode_error_closes_the_session() {
    let mut config = table();
    let mut session = ProxyClientManager::new();
    session.receive(&[2, 7, 0]);
    let decoded = session.next_packet();
    assert_eq!(decoded, Err(()));
    assert!(is_close(&session.handle(&mut config, Err(()))));
}

#[test]
fn upstream_forwards_disconnect_unchanged() {
    let mut upstream = ProxyServerManager::new();
    let packet = PacketServerEnum::Disconnect(mineroute::packets::DisconnectPacket { reason: "bye".to_string() });
    let out = upstream.handle(Ok(packet.clone()));
    assert_eq!(out.len(), 1);
    match &out[0] {
        UpstreamAction::ToClient(HandlerMessage::SendPacket(p)) => assert_eq!(*p, packet),
        _ => panic!("expected the packet to be forwarded"),
    }
}

#[test]
fn ping_during_probe_is_answered_after_the_status() {
    let mut config = table();
    let mut session = ProxyClientManager::new();
    let mut client = HandlerPipeline::new();
    client_sends(
        &mut session,
        &mut config,
        &client,
        PacketClientEnum::Handshake(handshake("a.mc.local", Protocol::Status)),
    );
    client.set_protocol(Protocol::Status);
    let actions = client_sends(&mut session, &mut config, &client, PacketClientEnum::StatusRequest(StatusRequestPacket));
    assert!(matches!(actions[0], ClientAction::FetchStatus(_)));
    let actions = client_sends(&mut session, &mut config, &client, PacketClientEnum::Ping(PingPacket { payload: 42 }));
    assert!(actions.is_empty());
    let actions = session.status_fetched(Some(STATUS_JSON.to_string()));
    assert_eq!(actions.len(), 2);
    let bytes: Vec<Vec<u8>> = actions
        .iter()
        .map(|a| match a {
            ClientAction::SendToClient(b) => b.clone(),
            _ => panic!("expected bytes for the client"),
        })
        .collect();
    assert_eq!(
        client_reads(&mut client, &bytes[0]),
        PacketServerEnum::StatusResponse(StatusResponsePacket { status: STATUS_JSON.to_string() })
    );
    assert_eq!(
        client_reads(&mut client, &bytes[1]),
        PacketServerEnum::Pong(mineroute::packets::PongPacket { payload: 42 })
    );
    let actions = client_sends(&mut session, &mut config, &client, PacketClientEnum::Ping(PingPacket { payload: 7 }));
    assert_eq!(sent_bytes(&actions), vec![9, 1, 0, 0, 0, 0, 0, 0, 0, 7]);
}
