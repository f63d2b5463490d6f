use std::collections::HashMap;
use wombat::agent::AgentAction;
use wombat::agent::AgentError;
use wombat::agent::AgentEvent;
use wombat::agent::AgentState;
use wombat::connection::Outcome;
use wombat::connection::Relay;
use wombat::connection::TunnelManager;
use wombat::protocol::encode_client_packet;
use wombat::protocol::frame_server_packet;
use wombat::protocol::ClientPacket;
use wombat::protocol::Hello;
use wombat::protocol::ReadError;
use wombat::protocol::ServerPacket;
use wombat::protocol::WombatError;
use wombat::tunnel::handle_read_error;
use wombat::tunnel::handshake_client;
use wombat::tunnel::handshake_start;
use wombat::tunnel::HandshakeError;
use wombat::tunnel::ServerAction;
use wombat::tunnel::ServerEvent;
use wombat::tunnel::ServerState;
use wombat::utils::hash_key;

const KEY: &str = "0123456789abcdefghijklmnopqrstuv";

fn key_bytes(text: &str) -> [u8; 32] {
    let mut key = [0u8; 32];
    key.copy_from_slice(text.as_bytes());
    key
}

fn store_with(entries: &[(&str, &str)]) -> HashMap<String, String> {
    entries.iter().map(|(key, identity)| (hash_key(key), identity.to_string())).collect()
}

// Runs the broker's handshake against bytes that an agent would send,
// answering look-ups from `store`. Returns the last state and every frame
// that the broker wrote.
fn run_broker(
    hello: Vec<u8>,
    auth: Vec<u8>,
    store: &HashMap<String, String>,
) -> (ServerState, Vec<Vec<u8>>, usize) {
    let (mut state, mut action) = handshake_start();
    let mut frames = Vec::new();
    let mut reads = 0usize;
    let mut inputs = vec![hello, auth].into_iter();
    loop {
        let event = match action {
            ServerAction::Read { len } => {
                reads += 1;
                let bytes = inputs.next().unwrap();
                assert_eq!(bytes.len(), len);
                ServerEvent::Received(bytes)
            }
            ServerAction::Send { frame } => {
                frames.push(frame);
                ServerEvent::Sent
            }
            ServerAction::Lookup { key_hash } => ServerEvent::Identity(store.get(&key_hash).cloned()),
            ServerAction::Promote | ServerAction::Close => return (state, frames, reads),
        };
        let next = handshake_client(state, event);
        state = next.0;
        action = next.1;
    }
}

#[test]
fn the_handshake_begins_by_reading_the_announcement() {
    assert_eq!(handshake_start(), (ServerState::AwaitHello, ServerAction::Read { len: 5 }));
}

#[test]
fn scenario_happy_path() {
    let store = store_with(&[(KEY, "u1")]);
    let hello = encode_client_packet(&ClientPacket::Hello(Hello { protocol_version: 1 }));
    let auth = encode_client_packet(&ClientPacket::Auth(key_bytes(KEY)));
    let (state, frames, reads) = run_broker(hello, auth, &store);
    assert_eq!(state, ServerState::Authenticated { identity: "u1".to_string() });
    assert_eq!(reads, 2);
    assert_eq!(
        frames,
        vec![
            frame_server_packet(&ServerPacket::Hello(Hello { protocol_version: 1 })),
            frame_server_packet(&ServerPacket::AuthSuccess),
        ]
    );

    let mut manager: TunnelManager<&str, u32> = TunnelManager::new();
    assert_eq!(manager.register("u1".to_string(), "tunnel of u1"), Some(0));
    let decision: Relay<u32, &str> = manager.relay("u1", 7);
    assert_eq!(decision, Relay::Forward { ticket: 0, slot: 0 });
    assert_eq!(manager.sender(0), Some(&"tunnel of u1"));
    assert_eq!(manager.complete(0, Some("pong")), Some((7, Outcome::Forwarded("pong"))));
}

#[test]
fn scenario_stale_identity() {
    let mut manager: TunnelManager<&str, u32> = TunnelManager::new();
    assert_eq!(manager.register("u1".to_string(), "tunnel of u1"), Some(0));
    let decision: Relay<u32, &str> = manager.relay("u2", 9);
    assert_eq!(decision, Relay::Deliver { reply: 9, outcome: Outcome::NotConnected });
    assert_eq!(manager.lookup("u2"), None);
}

#[test]
fn scenario_version_skew() {
    let store = store_with(&[(KEY, "u1")]);
    let hello = encode_client_packet(&ClientPacket::Hello(Hello { protocol_version: 99 }));
    let auth = encode_client_packet(&ClientPacket::Auth(key_bytes(KEY)));
    let (state, frames, reads) = run_broker(hello, auth, &store);
    assert_eq!(state, ServerState::Failed { error: HandshakeError::ProtocolVersion });
    // Only the announcement was read: the key never was.
    assert_eq!(reads, 1);
    assert_eq!(
        frames,
        vec![frame_server_packet(&ServerPacket::Error(WombatError::ProtocolVersionMismatch {
            server_version: 1
        }))]
    );
    assert_eq!(frames[0], vec![1, 0, 0, 0, 0, 0, 0, 0, 1, 10]);
}

#[test]
fn every_other_version_is_turned_away() {
    for version in 0..=255u8 {
        let hello = encode_client_packet(&ClientPacket::Hello(Hello { protocol_version: version }));
        let (state, action) = handshake_client(ServerState::AwaitHello, ServerEvent::Received(hello));
        if version == 1 {
            assert_eq!(state, ServerState::SendHello);
        } else {
            assert_eq!(state, ServerState::Reject { error: HandshakeError::ProtocolVersion });
            assert_eq!(
                action,
                ServerAction::Send {
                    frame: frame_server_packet(&ServerPacket::Error(
                        WombatError::ProtocolVersionMismatch { server_version: 1 }
                    ))
                }
            );
        }
    }
}

#[test]
fn an_unknown_key_is_unauthorized() {
    let store = store_with(&[(KEY, "u1")]);
    let hello = encode_client_packet(&ClientPacket::Hello(Hello { protocol_version: 1 }));
    let auth = encode_client_packet(&ClientPacket::Auth(key_bytes("0123456789abcdefghijklmnopqrstuw")));
    let (state, frames, _) = run_broker(hello, auth, &store);
    assert_eq!(state, ServerState::Failed { error: HandshakeError::Unauthorized });
    assert_eq!(frames.len(), 2);
    assert_eq!(frames[1], frame_server_packet(&ServerPacket::Unauthorized));
}

#[test]
fn other_identities_in_the_store_change_nothing() {
    let small = store_with(&[(KEY, "u1")]);
    let large = store_with(&[
        (KEY, "u1"),
        ("ABCDEFGHIJKLMNOPQRSTUVWXYZ012345", "u2"),
        ("zzzzzzzzzzzzzzzzzzzzzzzzzzzzzzzz", "u3"),
    ]);
    for key in [KEY, "ABCDEFGHIJKLMNOPQRSTUVWXYZ012345", "unknownunknownunknownunknown1234"] {
        let hello = encode_client_packet(&ClientPacket::Hello(Hello { protocol_version: 1 }));
        let auth = encode_client_packet(&ClientPacket::Auth(key_bytes(key)));
        let in_small = run_broker(hello.clone(), auth.clone(), &small);
        let in_large = run_broker(hello, auth, &large);
        if key == KEY {
            assert_eq!(in_small, in_large);
            assert_eq!(in_large.0, ServerState::Authenticated { identity: "u1".to_string() });
        }
        if key.starts_with("unknown") {
            assert_eq!(in_small, in_large);
            assert_eq!(in_large.0, ServerState::Failed { error: HandshakeError::Unauthorized });
        }
    }
}

#[test]
fn the_key_store_is_asked_for_the_hash_of_the_key() {
    let auth = encode_client_packet(&ClientPacket::Auth(key_bytes(KEY)));
    let (state, action) = handshake_client(ServerState::AwaitAuth, ServerEvent::Received(auth));
    assert_eq!(state, ServerState::AwaitIdentity);
    assert_eq!(action, ServerAction::Lookup { key_hash: hash_key(KEY) });
    assert_eq!(
        action,
        ServerAction::Lookup {
            key_hash: "73337f479fe170d73e53e247f3052e4243cc9c2a0ffa621853d9385c619efb77".to_string()
        }
    );
}

#[test]
fn malformed_and_misplaced_packets_are_reported_as_invalid() {
    let report = ServerAction::Send {
        frame: frame_server_packet(&ServerPacket::Error(WombatError::InvalidPacket)),
    };
    let rejected = ServerState::Reject { error: HandshakeError::InvalidPacket };
    // No packet at all where the announcement is expected.
    assert_eq!(
        handshake_client(ServerState::AwaitHello, ServerEvent::Received(vec![9, 9, 9, 9, 9])),
        (rejected.clone(), report.clone())
    );
    // An announcement where the key is expected.
    let mut hello = vec![0u8; 36];
    hello[4] = 1;
    assert_eq!(
        handshake_client(ServerState::AwaitAuth, ServerEvent::Received(hello)),
        (rejected.clone(), report.clone())
    );
    // After the report the connection is closed.
    assert_eq!(
        handshake_client(rejected, ServerEvent::Sent),
        (ServerState::Failed { error: HandshakeError::InvalidPacket }, ServerAction::Close)
    );
}

#[test]
fn io_failures_end_the_handshake_at_once() {
    let failed = (ServerState::Failed { error: HandshakeError::Io }, ServerAction::Close);
    for state in [
        ServerState::AwaitHello,
        ServerState::SendHello,
        ServerState::AwaitAuth,
        ServerState::Accept { identity: "u1".to_string() },
        ServerState::Reject { error: HandshakeError::Unauthorized },
    ] {
        assert_eq!(handshake_client(state, ServerEvent::Io), failed);
    }
    assert_eq!(
        handshake_client(ServerState::AwaitIdentity, ServerEvent::KeyStoreFailed),
        (ServerState::Failed { error: HandshakeError::KeyStore }, ServerAction::Close)
    );
}

#[test]
fn events_out_of_turn_end_the_handshake() {
    let failed = (ServerState::Failed { error: HandshakeError::OutOfTurn }, ServerAction::Close);
    assert_eq!(handshake_client(ServerState::AwaitHello, ServerEvent::Sent), failed);
    assert_eq!(
        handshake_client(ServerState::AwaitHello, ServerEvent::Identity(Some("u1".to_string()))),
        failed
    );
    assert_eq!(handshake_client(ServerState::SendHello, ServerEvent::Received(vec![])), failed);
    assert_eq!(handshake_client(ServerState::AwaitAuth, ServerEvent::Identity(None)), failed);
    assert_eq!(handshake_client(ServerState::AwaitIdentity, ServerEvent::Sent), failed);
}

#[test]
fn finished_handshakes_stay_finished() {
    let done = ServerState::Authenticated { identity: "u1".to_string() };
    assert_eq!(handshake_client(done.clone(), ServerEvent::Io), (done, ServerAction::Promote));
    let failed = ServerState::Failed { error: HandshakeError::Unauthorized };
    assert_eq!(
        handshake_client(failed.clone(), ServerEvent::Identity(Some("u1".to_string()))),
        (failed, ServerAction::Close)
    );
}

#[test]
fn read_errors_are_reported_or_not() {
    assert_eq!(handle_read_error(ReadError::Io), (None, HandshakeError::Io));
    let report = Some(ServerPacket::Error(WombatError::InvalidPacket));
    assert_eq!(
        handle_read_error(ReadError::Deserialization),
        (report, HandshakeError::InvalidPacket)
    );
    assert_eq!(handle_read_error(ReadError::InvalidPacket), (report, HandshakeError::InvalidPacket));
}

// Runs the agent's handshake against a broker that runs the broker's.
fn run_both(key: &[u8], store: &HashMap<String, String>) -> (AgentState, ServerState) {
    let (mut agent, mut agent_action) = wombat::agent::handshake_start(key.to_vec());
    let (mut broker, mut broker_action) = handshake_start();
    let mut to_broker: Vec<u8> = Vec::new();
    let mut to_agent: Vec<u8> = Vec::new();
    for _ in 0..100 {
        let mut moved = false;
        let agent_event = match &agent_action {
            AgentAction::Send { bytes } => {
                to_broker.extend_from_slice(bytes);
                Some(AgentEvent::Sent)
            }
            AgentAction::Read { len } if to_agent.len() >= *len => {
                Some(AgentEvent::Received(to_agent.drain(..*len).collect()))
            }
            _ => None,
        };
        if let Some(event) = agent_event {
            let next = wombat::agent::handshake_server(agent, event);
            agent = next.0;
            agent_action = next.1;
            moved = true;
        }
        let broker_event = match &broker_action {
            ServerAction::Send { frame } => {
                to_agent.extend_from_slice(frame);
                Some(ServerEvent::Sent)
            }
            ServerAction::Read { len } if to_broker.len() >= *len => {
                Some(ServerEvent::Received(to_broker.drain(..*len).collect()))
            }
            ServerAction::Lookup { key_hash } => {
                Some(ServerEvent::Identity(store.get(key_hash).cloned()))
            }
            _ => None,
        };
        if let Some(event) = broker_event {
            let next = handshake_client(broker, event);
            broker = next.0;
            broker_action = next.1;
            moved = true;
        }
        if !moved {
            break;
        }
    }
    assert!(to_agent.is_empty());
    (agent, broker)
}

#[test]
fn agent_and_broker_agree_on_a_good_key() {
    let store = store_with(&[(KEY, "u1")]);
    assert_eq!(
        run_both(KEY.as_bytes(), &store),
        (AgentState::Authenticated, ServerState::Authenticated { identity: "u1".to_string() })
    );
}

#[test]
fn agent_and_broker_agree_on_a_bad_key() {
    let store = store_with(&[(KEY, "u1")]);
    assert_eq!(
        run_both(b"0123456789abcdefghijklmnopqrstuw", &store),
        (
            AgentState::Failed { error: AgentError::Unauthorized },
            ServerState::Failed { error: HandshakeError::Unauthorized }
        )
    );
}

#[test]
fn a_key_of_the_wrong_width_is_refused_by_the_agent() {
    let (state, action) = wombat::agent::handshake_server(
        AgentState::AwaitHelloAck { key: b"short".to_vec(), received: vec![0, 0, 0, 0, 1] },
        AgentEvent::Received(vec![10]),
    );
    assert_eq!(state, AgentState::Failed { error: AgentError::InvalidKey });
    assert_eq!(action, AgentAction::Close);
    assert_eq!(wombat::agent::auth_packet(b"short"), None);
    assert_eq!(
        wombat::agent::auth_packet(KEY.as_bytes()),
        Some(ClientPacket::Auth(key_bytes(KEY)))
    );
}

#[test]
fn the_agent_announces_the_current_version() {
    let (state, action) = wombat::agent::handshake_start(KEY.as_bytes().to_vec());
    assert_eq!(state, AgentState::SendHello { key: KEY.as_bytes().to_vec() });
    assert_eq!(action, AgentAction::Send { bytes: vec![0, 0, 0, 0, 1] });
    let (state, action) = wombat::agent::handshake_server(state, AgentEvent::Sent);
    assert_eq!(
        state,
        AgentState::AwaitHelloAck { key: KEY.as_bytes().to_vec(), received: vec![] }
    );
    assert_eq!(action, AgentAction::Read { len: 5 });
}

#[test]
fn the_agent_reads_the_echo_in_two_parts_and_presents_its_key() {
    let waiting = AgentState::AwaitHelloAck { key: KEY.as_bytes().to_vec(), received: vec![] };
    let (state, action) =
        wombat::agent::handshake_server(waiting, AgentEvent::Received(vec![0, 0, 0, 0, 1]));
    assert_eq!(
        state,
        AgentState::AwaitHelloAck { key: KEY.as_bytes().to_vec(), received: vec![0, 0, 0, 0, 1] }
    );
    assert_eq!(action, AgentAction::Read { len: 1 });
    let (state, action) = wombat::agent::handshake_server(state, AgentEvent::Received(vec![10]));
    assert_eq!(state, AgentState::SendAuth);
    assert_eq!(
        action,
        AgentAction::Send { bytes: encode_client_packet(&ClientPacket::Auth(key_bytes(KEY))) }
    );
}

#[test]
fn the_agent_tells_the_brokers_answers_apart() {
    let mismatch = frame_server_packet(&ServerPacket::Error(
        WombatError::ProtocolVersionMismatch { server_version: 2 },
    ));
    assert_eq!(wombat::agent::read_hello(&mismatch), Err(AgentError::OutdatedClient));
    let invalid = frame_server_packet(&ServerPacket::Error(WombatError::InvalidPacket));
    assert_eq!(wombat::agent::read_hello(&invalid), Err(AgentError::InvalidPacket));
    let echo = frame_server_packet(&ServerPacket::Hello(Hello { protocol_version: 1 }));
    assert_eq!(wombat::agent::read_hello(&echo), Ok(()));
    let accepted = frame_server_packet(&ServerPacket::AuthSuccess);
    assert_eq!(
        wombat::agent::read_hello(&accepted),
        Err(AgentError::UnexpectedPacket(ServerPacket::AuthSuccess))
    );
    assert_eq!(wombat::agent::read_hello(&[9, 9]), Err(AgentError::Malformed));

    assert_eq!(wombat::agent::read_auth(&accepted), Ok(()));
    let unauthorized = frame_server_packet(&ServerPacket::Unauthorized);
    assert_eq!(wombat::agent::read_auth(&unauthorized), Err(AgentError::Unauthorized));
    assert_eq!(
        wombat::agent::read_auth(&echo),
        Err(AgentError::UnexpectedPacket(ServerPacket::Hello(Hello { protocol_version: 1 })))
    );
    assert_eq!(wombat::agent::read_auth(&[]), Err(AgentError::Malformed));
}

#[test]
fn an_outdated_agent_gives_up() {
    let waiting = AgentState::AwaitHelloAck { key: KEY.as_bytes().to_vec(), received: vec![] };
    let (state, action) =
        wombat::agent::handshake_server(waiting, AgentEvent::Received(vec![1, 0, 0, 0, 0]));
    assert_eq!(action, AgentAction::Read { len: 5 });
    let (state, action) =
        wombat::agent::handshake_server(state, AgentEvent::Received(vec![0, 0, 0, 1, 10]));
    assert_eq!(state, AgentState::Failed { error: AgentError::OutdatedClient });
    assert_eq!(action, AgentAction::Close);
}

#[test]
fn the_agent_gives_up_on_io_failures_and_on_bytes_that_are_no_frame() {
    let failed = (AgentState::Failed { error: AgentError::Io }, AgentAction::Close);
    assert_eq!(
        wombat::agent::handshake_server(AgentState::SendHello { key: vec![] }, AgentEvent::Io),
        failed
    );
    assert_eq!(wombat::agent::handshake_server(AgentState::SendAuth, AgentEvent::Io), failed);
    assert_eq!(
        wombat::agent::handshake_server(
            AgentState::AwaitAuthAck { received: vec![] },
            AgentEvent::Received(vec![5, 0, 0, 0, 10])
        ),
        (AgentState::Failed { error: AgentError::Malformed }, AgentAction::Close)
    );
    assert_eq!(
        wombat::agent::handshake_server(AgentState::SendAuth, AgentEvent::Received(vec![])),
        (AgentState::Failed { error: AgentError::OutOfTurn }, AgentAction::Close)
    );
    assert_eq!(
        wombat::agent::handshake_server(AgentState::Authenticated, AgentEvent::Io),
        (AgentState::Authenticated, AgentAction::Serve)
    );
}
