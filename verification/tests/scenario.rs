use udp_p2p::address::{Ipv4Endpoint, SocketAddress};
use udp_p2p::client::{Client, ClientAction, ClientEvent, ClientPhase};
use udp_p2p::stun::{new, Outbound, ReplyKind, ServerAction, ServerEvent, StunServer};

fn payload_of(action: ClientAction) -> Vec<u8> {
    match action {
        ClientAction::Send { payload } => payload,
        other => panic!("a send was expected, not {other:?}"),
    }
}

fn deliver(server: &mut StunServer, from: &SocketAddress, payload: Vec<u8>) -> Option<Outbound> {
    let action = server.step(ServerEvent::Datagram { source: from.clone(), payload }).unwrap();
    match action {
        ServerAction::Send(outbound) => {
            let sent = ServerEvent::Sent { kind: outbound.kind, length: outbound.payload.len() };
            assert_eq!(server.step(sent), Ok(ServerAction::Receive { capacity: 128 }));
            Some(outbound)
        }
        ServerAction::Receive { capacity } => {
            assert_eq!(capacity, 128);
            None
        }
        other => panic!("unexpected action {other:?}"),
    }
}

fn connected(stun_address: &str, connect_with: &str) -> (Client, Vec<u8>) {
    let (mut client, bind) = Client::connect_stun(stun_address, connect_with);
    assert_eq!(bind, ClientAction::Bind { address: "0.0.0.0:4823".to_string() });
    let connect = client.step(ClientEvent::Bound).unwrap();
    assert_eq!(connect, ClientAction::Connect { address: stun_address.to_string() });
    let first = payload_of(client.step(ClientEvent::Connected).unwrap());
    (client, first)
}

#[test]
fn two_clients_are_introduced_and_probe_each_other() {
    let mut server = new("0.0.0.0", "6969");
    assert_eq!(
        server.start(),
        Ok(ServerAction::Bind { address: "0.0.0.0:6969".to_string() })
    );
    server.step(ServerEvent::Bound).unwrap();

    let address_x = SocketAddress::V4(Ipv4Endpoint { octets: [203, 0, 113, 7], port: 40000 });
    let address_y = SocketAddress::V4(Ipv4Endpoint { octets: [198, 51, 100, 4], port: 4823 });

    // X registers and receives its code.
    let (mut x, register) = connected("192.0.2.1:6969", "");
    let length = register.len();
    let reply = deliver(&mut server, &address_x, register).unwrap();
    assert_eq!(reply.kind, ReplyKind::Code);
    assert_eq!(reply.to, address_x);
    assert_eq!(
        x.step(ClientEvent::Sent { length }),
        Ok(ClientAction::Receive { capacity: 5 })
    );
    assert_eq!(
        x.step(ClientEvent::Received { payload: reply.payload.clone() }),
        Ok(ClientAction::Receive { capacity: 32 })
    );
    let code = x.code.clone();
    assert_eq!(code.as_bytes(), &reply.payload[..]);
    assert_eq!(code, server.registered_ipv4_addresses[0].code);

    // Y looks the code up and receives X's address.
    let (mut y, ask) = connected("192.0.2.1:6969", &code);
    assert_eq!(ask, format!("ASK_CODE:{code}").into_bytes());
    let length = ask.len();
    let reply = deliver(&mut server, &address_y, ask).unwrap();
    assert_eq!(reply.kind, ReplyKind::PeerAddress);
    assert_eq!(reply.to, address_y);
    assert_eq!(reply.payload, b"203.0.113.7:40000".to_vec());
    y.step(ClientEvent::Sent { length }).unwrap();
    let broadcast = payload_of(y.step(ClientEvent::Received { payload: reply.payload }).unwrap());
    assert_eq!(y.remote_address, "203.0.113.7:40000");

    // Y asks to be introduced; the server tells X, and only X.
    assert_eq!(broadcast, format!("BROADCAST{code}").into_bytes());
    let length = broadcast.len();
    assert_eq!(length, 13);
    let notice = deliver(&mut server, &address_y, broadcast).unwrap();
    assert_eq!(
        notice,
        Outbound {
            kind: ReplyKind::Introduction,
            to: address_x,
            payload: b"REQUEST198.51.100.4:4823".to_vec(),
        }
    );
    let mut action_x = x.step(ClientEvent::Received { payload: notice.payload }).unwrap();
    assert_eq!(x.remote_address, "198.51.100.4:4823");

    // Both sides probe each other, again and again.
    let mut action_y = y.step(ClientEvent::Sent { length }).unwrap();
    let mut heard_by_x = 0;
    let mut heard_by_y = 0;
    for _ in 0..3 {
        assert_eq!(action_y, ClientAction::Connect { address: "203.0.113.7:40000".to_string() });
        assert_eq!(action_x, ClientAction::Connect { address: "198.51.100.4:4823".to_string() });
        let probe_y = payload_of(y.step(ClientEvent::Connected).unwrap());
        let probe_x = payload_of(x.step(ClientEvent::Connected).unwrap());
        if probe_y == b"Hi there".to_vec() {
            heard_by_x += 1;
        }
        if probe_x == b"Hi there".to_vec() {
            heard_by_y += 1;
        }
        assert_eq!(
            y.step(ClientEvent::Sent { length: probe_y.len() }),
            Ok(ClientAction::Sleep { millis: 500 })
        );
        assert_eq!(
            x.step(ClientEvent::Sent { length: probe_x.len() }),
            Ok(ClientAction::Sleep { millis: 500 })
        );
        action_y = y.step(ClientEvent::Slept).unwrap();
        action_x = x.step(ClientEvent::Slept).unwrap();
    }
    assert_eq!(heard_by_x, 3);
    assert_eq!(heard_by_y, 3);
    assert_eq!(x.phase, ClientPhase::Targeting);
    assert_eq!(y.phase, ClientPhase::Targeting);
    assert_eq!(server.registered_ipv4_addresses.len(), 1);
}
