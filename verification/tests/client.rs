use udp_p2p::client::{
    Client, ClientAction, ClientError, ClientEvent, ClientPhase, ADDRESS_CAPACITY, ASK_CODE,
    BROADCAST, BROADCAST_LENGTH, CODE_CAPACITY, CODE_LENGTH, GREETING, LOCAL_HOST, LOCAL_PORT,
    NOTICE_CAPACITY, PROBE_DELAY_MS, REGISTER, REQUEST,
};

fn received(payload: &[u8]) -> ClientEvent {
    ClientEvent::Received { payload: payload.to_vec() }
}

fn send(payload: &[u8]) -> ClientAction {
    ClientAction::Send { payload: payload.to_vec() }
}

fn registering() -> Client {
    let (mut client, _) = Client::connect_stun("203.0.113.1:6969", "");
    client.step(ClientEvent::Bound).unwrap();
    client.step(ClientEvent::Connected).unwrap();
    client
}

fn awaiting_code() -> Client {
    let mut client = registering();
    client.step(ClientEvent::Sent { length: 8 }).unwrap();
    client
}

fn asking() -> Client {
    let (mut client, _) = Client::connect_stun("203.0.113.1:6969", "WXYZ");
    client.step(ClientEvent::Bound).unwrap();
    client.step(ClientEvent::Connected).unwrap();
    client
}

fn awaiting_peer() -> Client {
    let mut client = asking();
    client.step(ClientEvent::Sent { length: 13 }).unwrap();
    client
}

fn targeting() -> Client {
    let mut client = awaiting_peer();
    client.step(received(b"198.51.100.4:4823")).unwrap();
    client.step(ClientEvent::Sent { length: 13 }).unwrap();
    client
}

#[test]
fn the_constants_of_the_protocol() {
    assert_eq!(REGISTER, "REGISTER");
    assert_eq!(ASK_CODE, "ASK_CODE");
    assert_eq!(BROADCAST, "BROADCAST");
    assert_eq!(GREETING, "Hi there");
    assert_eq!(REQUEST, "REQUEST");
    assert_eq!(CODE_LENGTH, 4);
    assert_eq!(CODE_CAPACITY, 5);
    assert_eq!(LOCAL_HOST, "0.0.0.0");
    assert_eq!(LOCAL_PORT, "4823");
    assert_eq!(NOTICE_CAPACITY, 32);
    assert_eq!(ADDRESS_CAPACITY, 64);
    assert_eq!(PROBE_DELAY_MS, 500);
    assert_eq!(BROADCAST_LENGTH, 13);
}

#[test]
fn a_new_client_asks_for_its_local_socket() {
    let (client, action) = Client::connect_stun("203.0.113.1:6969", "WXYZ");
    assert_eq!(action, ClientAction::Bind { address: "0.0.0.0:4823".to_string() });
    assert_eq!(
        client,
        Client {
            phase: ClientPhase::Binding,
            stun_address: "203.0.113.1:6969".to_string(),
            connect_with: "WXYZ".to_string(),
            code: String::new(),
            remote_address: String::new(),
        }
    );
}

#[test]
fn a_bound_client_turns_to_the_server() {
    let (mut client, _) = Client::connect_stun("203.0.113.1:6969", "");
    assert_eq!(
        client.step(ClientEvent::Bound),
        Ok(ClientAction::Connect { address: "203.0.113.1:6969".to_string() })
    );
    assert_eq!(client.phase, ClientPhase::Connecting);
}

#[test]
fn a_failed_bind_ends_the_client() {
    let (mut client, _) = Client::connect_stun("203.0.113.1:6969", "");
    assert_eq!(client.step(ClientEvent::BindFailed), Err(ClientError::Bind));
    assert_eq!(client.phase, ClientPhase::Stopped);
}

#[test]
fn a_failed_connect_ends_the_client() {
    let (mut client, _) = Client::connect_stun("203.0.113.1:6969", "");
    client.step(ClientEvent::Bound).unwrap();
    assert_eq!(client.step(ClientEvent::ConnectFailed), Err(ClientError::Connect));
    assert_eq!(client.phase, ClientPhase::Stopped);
}

#[test]
fn without_a_code_the_client_registers() {
    let (mut client, _) = Client::connect_stun("203.0.113.1:6969", "");
    client.step(ClientEvent::Bound).unwrap();
    assert_eq!(client.step(ClientEvent::Connected), Ok(send(b"REGISTER")));
    assert_eq!(client.phase, ClientPhase::Registering);
}

#[test]
fn with_a_code_the_client_looks_it_up() {
    let (mut client, _) = Client::connect_stun("203.0.113.1:6969", "WXYZ");
    client.step(ClientEvent::Bound).unwrap();
    assert_eq!(client.step(ClientEvent::Connected), Ok(send(b"ASK_CODE:WXYZ")));
    assert_eq!(client.phase, ClientPhase::Asking);
}

#[test]
fn a_registration_that_did_not_go_out_is_an_error() {
    let mut client = registering();
    assert_eq!(client.step(ClientEvent::Sent { length: 0 }), Err(ClientError::NothingSent));
    assert_eq!(client.phase, ClientPhase::Stopped);
    let mut client = registering();
    assert_eq!(client.step(ClientEvent::SendFailed), Err(ClientError::Send));
    assert_eq!(client.phase, ClientPhase::Stopped);
}

#[test]
fn after_registering_the_client_makes_room_for_one_byte_more_than_a_code() {
    let mut client = registering();
    assert_eq!(
        client.step(ClientEvent::Sent { length: 8 }),
        Ok(ClientAction::Receive { capacity: 5 })
    );
    assert_eq!(client.phase, ClientPhase::AwaitingCode);
}

#[test]
fn the_code_is_kept_and_the_client_listens() {
    let mut client = awaiting_code();
    assert_eq!(client.step(received(b"Ab3d")), Ok(ClientAction::Receive { capacity: 32 }));
    assert_eq!(client.code, "Ab3d");
    assert_eq!(client.phase, ClientPhase::Listening);
    assert_eq!(client.remote_address, "");
}

#[test]
fn a_reply_longer_than_a_code_is_refused_though_it_begins_with_one() {
    // What arrives of the five bytes `ABCDE` in the room the client asked for.
    let mut client = registering();
    let capacity = match client.step(ClientEvent::Sent { length: 8 }) {
        Ok(ClientAction::Receive { capacity }) => capacity,
        other => panic!("a receive was expected, not {other:?}"),
    };
    let datagram = b"ABCDE";
    let handed_over = &datagram[..datagram.len().min(capacity)];
    assert_eq!(client.step(received(handed_over)), Err(ClientError::InvalidCodeLength));
    assert_eq!(client.phase, ClientPhase::Stopped);
    assert_eq!(client.code, "");
}

#[test]
fn a_listening_client_goes_on_listening_to_other_text() {
    let mut client = awaiting_code();
    client.step(received(b"Ab3d")).unwrap();
    for payload in [&b""[..], b"Hi there", b"REQUES", b"request10.0.0.2:4000", b" REQUEST1"] {
        assert_eq!(client.step(received(payload)), Ok(ClientAction::Receive { capacity: 32 }));
        assert_eq!(client.phase, ClientPhase::Listening);
        assert_eq!(client.remote_address, "");
    }
    assert_eq!(client.code, "Ab3d");
}

#[test]
fn an_introduced_client_turns_to_the_peer_and_probes_it() {
    let mut client = awaiting_code();
    client.step(received(b"Ab3d")).unwrap();
    assert_eq!(
        client.step(received(b"REQUEST10.0.0.2:4000")),
        Ok(ClientAction::Connect { address: "10.0.0.2:4000".to_string() })
    );
    assert_eq!(client.remote_address, "10.0.0.2:4000");
    assert_eq!(client.code, "Ab3d");
    assert_eq!(client.phase, ClientPhase::Targeting);
    for _ in 0..3 {
        assert_eq!(client.step(ClientEvent::Connected), Ok(send(b"Hi there")));
        assert_eq!(
            client.step(ClientEvent::Sent { length: 8 }),
            Ok(ClientAction::Sleep { millis: 500 })
        );
        assert_eq!(
            client.step(ClientEvent::Slept),
            Ok(ClientAction::Connect { address: "10.0.0.2:4000".to_string() })
        );
    }
}

#[test]
fn a_notice_with_nothing_after_the_tag_names_an_empty_address() {
    let mut client = awaiting_code();
    client.step(received(b"Ab3d")).unwrap();
    assert_eq!(
        client.step(received(b"REQUEST")),
        Ok(ClientAction::Connect { address: String::new() })
    );
    assert_eq!(client.phase, ClientPhase::Targeting);
}

#[test]
fn a_code_of_the_wrong_length_is_a_protocol_error() {
    for reply in [&b""[..], b"abc", b"abcde", b"203.0.113.7:40000"] {
        let mut client = awaiting_code();
        assert_eq!(client.step(received(reply)), Err(ClientError::InvalidCodeLength));
        assert_eq!(client.phase, ClientPhase::Stopped);
        assert_eq!(client.code, "");
    }
}

#[test]
fn a_code_that_is_not_utf8_is_an_error() {
    let mut client = awaiting_code();
    assert_eq!(client.step(received(&[b'a', b'b', 0xff, b'd'])), Err(ClientError::Malformed));
    assert_eq!(client.phase, ClientPhase::Stopped);
}

#[test]
fn a_receive_failure_ends_the_client() {
    let mut client = awaiting_code();
    assert_eq!(client.step(ClientEvent::ReceiveFailed), Err(ClientError::Receive));
    let mut client = awaiting_code();
    client.step(received(b"Ab3d")).unwrap();
    assert_eq!(client.step(ClientEvent::ReceiveFailed), Err(ClientError::Receive));
    let mut client = awaiting_peer();
    assert_eq!(client.step(ClientEvent::ReceiveFailed), Err(ClientError::Receive));
    assert_eq!(client.phase, ClientPhase::Stopped);
}

#[test]
fn a_listening_client_gives_up_on_bytes_that_are_not_utf8() {
    let mut client = awaiting_code();
    client.step(received(b"Ab3d")).unwrap();
    assert_eq!(client.step(received(&[0xc3])), Err(ClientError::Malformed));
    assert_eq!(client.phase, ClientPhase::Stopped);
}

#[test]
fn a_lookup_that_did_not_go_out_is_an_error() {
    let mut client = asking();
    assert_eq!(client.step(ClientEvent::Sent { length: 0 }), Err(ClientError::NothingSent));
    let mut client = asking();
    assert_eq!(client.step(ClientEvent::SendFailed), Err(ClientError::Send));
}

#[test]
fn after_the_lookup_the_client_waits_for_the_address() {
    let mut client = asking();
    assert_eq!(
        client.step(ClientEvent::Sent { length: 13 }),
        Ok(ClientAction::Receive { capacity: 64 })
    );
    assert_eq!(client.phase, ClientPhase::AwaitingPeer);
}

#[test]
fn the_peer_address_is_kept_and_the_introduction_is_asked_for() {
    let mut client = awaiting_peer();
    assert_eq!(client.step(received(b"198.51.100.4:4823")), Ok(send(b"BROADCASTWXYZ")));
    assert_eq!(client.remote_address, "198.51.100.4:4823");
    assert_eq!(client.phase, ClientPhase::Broadcasting);
}

#[test]
fn an_empty_or_malformed_address_reply_is_an_error() {
    let mut client = awaiting_peer();
    assert_eq!(client.step(received(b"")), Err(ClientError::EmptyReply));
    assert_eq!(client.phase, ClientPhase::Stopped);
    let mut client = awaiting_peer();
    assert_eq!(client.step(received(&[0xff])), Err(ClientError::Malformed));
    assert_eq!(client.phase, ClientPhase::Stopped);
}

#[test]
fn an_introduction_request_must_go_out_whole() {
    for length in [0usize, 12, 14] {
        let mut client = awaiting_peer();
        client.step(received(b"198.51.100.4:4823")).unwrap();
        assert_eq!(
            client.step(ClientEvent::Sent { length }),
            Err(ClientError::BroadcastIncomplete)
        );
        assert_eq!(client.phase, ClientPhase::Stopped);
    }
    let mut client = awaiting_peer();
    client.step(received(b"198.51.100.4:4823")).unwrap();
    assert_eq!(client.step(ClientEvent::SendFailed), Err(ClientError::Send));
}

#[test]
fn after_the_introduction_the_client_turns_to_the_peer() {
    let mut client = awaiting_peer();
    client.step(received(b"198.51.100.4:4823")).unwrap();
    assert_eq!(
        client.step(ClientEvent::Sent { length: 13 }),
        Ok(ClientAction::Connect { address: "198.51.100.4:4823".to_string() })
    );
    assert_eq!(client.phase, ClientPhase::Targeting);
}

#[test]
fn the_probe_is_repeated_every_half_second() {
    let mut client = targeting();
    for _ in 0..5 {
        assert_eq!(client.step(ClientEvent::Connected), Ok(send(b"Hi there")));
        assert_eq!(client.phase, ClientPhase::Probing);
        assert_eq!(
            client.step(ClientEvent::Sent { length: 8 }),
            Ok(ClientAction::Sleep { millis: 500 })
        );
        assert_eq!(client.phase, ClientPhase::Resting);
        assert_eq!(
            client.step(ClientEvent::Slept),
            Ok(ClientAction::Connect { address: "198.51.100.4:4823".to_string() })
        );
        assert_eq!(client.phase, ClientPhase::Targeting);
    }
}

#[test]
fn a_probe_of_any_length_counts_as_sent() {
    let mut client = targeting();
    client.step(ClientEvent::Connected).unwrap();
    assert_eq!(
        client.step(ClientEvent::Sent { length: 0 }),
        Ok(ClientAction::Sleep { millis: 500 })
    );
}

#[test]
fn a_transport_failure_ends_the_probing() {
    let mut client = targeting();
    assert_eq!(client.step(ClientEvent::ConnectFailed), Err(ClientError::Connect));
    assert_eq!(client.phase, ClientPhase::Stopped);
    let mut client = targeting();
    client.step(ClientEvent::Connected).unwrap();
    assert_eq!(client.step(ClientEvent::SendFailed), Err(ClientError::Send));
    assert_eq!(client.phase, ClientPhase::Stopped);
}

#[test]
fn the_probing_can_be_cancelled() {
    let mut client = targeting();
    client.step(ClientEvent::Connected).unwrap();
    client.step(ClientEvent::Sent { length: 8 }).unwrap();
    assert_eq!(client.step(ClientEvent::Cancelled), Ok(ClientAction::Finish));
    assert_eq!(client.phase, ClientPhase::Stopped);
    assert_eq!(client.step(ClientEvent::Slept), Err(ClientError::Stopped));
    assert_eq!(client.step(ClientEvent::Cancelled), Err(ClientError::Stopped));
}

#[test]
fn every_phase_can_be_cancelled() {
    let (binding, _) = Client::connect_stun("203.0.113.1:6969", "");
    for mut client in [binding, registering(), awaiting_code(), asking(), awaiting_peer(), targeting()]
    {
        assert_eq!(client.step(ClientEvent::Cancelled), Ok(ClientAction::Finish));
        assert_eq!(client.phase, ClientPhase::Stopped);
    }
}

#[test]
fn an_event_out_of_turn_changes_nothing() {
    let mut client = awaiting_code();
    let before = client.clone();
    for event in [
        ClientEvent::Bound,
        ClientEvent::BindFailed,
        ClientEvent::Connected,
        ClientEvent::ConnectFailed,
        ClientEvent::Sent { length: 4 },
        ClientEvent::SendFailed,
        ClientEvent::Slept,
    ] {
        assert_eq!(client.step(event), Err(ClientError::OutOfTurn));
        assert_eq!(client, before);
    }
    let mut client = targeting();
    let before = client.clone();
    assert_eq!(client.step(received(b"Hi there")), Err(ClientError::OutOfTurn));
    assert_eq!(client.step(ClientEvent::Slept), Err(ClientError::OutOfTurn));
    assert_eq!(client, before);
}

#[test]
fn the_transitions_can_be_taken_one_by_one() {
    let (mut client, _) = Client::connect_stun("203.0.113.1:6969", "K9zz");
    assert_eq!(client.register(), send(b"REGISTER"));
    assert_eq!(client.phase, ClientPhase::Registering);
    assert_eq!(client.ask_with_code(), send(b"ASK_CODE:K9zz"));
    assert_eq!(client.phase, ClientPhase::Asking);
    assert_eq!(client.broadcast_ip(), send(b"BROADCASTK9zz"));
    assert_eq!(client.phase, ClientPhase::Broadcasting);
    client.remote_address = "10.1.2.3:9".to_string();
    assert_eq!(client.connect_remote(), ClientAction::Connect { address: "10.1.2.3:9".to_string() });
    assert_eq!(client.phase, ClientPhase::Targeting);
    assert_eq!(client.connect_with, "K9zz");
    assert_eq!(client.stun_address, "203.0.113.1:6969");
}
