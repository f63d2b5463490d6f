//! Broker side of the handshake.
//!
//! The handshake is a state machine. The caller owns the socket and the key
//! store: it performs the action that a step returns, and reports what came
//! of it as the next event. A step decides, and touches nothing else.

use crate::protocol::auth_len_spec;
use crate::protocol::encode_client_spec;
use crate::protocol::frame_server_packet;
use crate::protocol::frame_server_spec;
use crate::protocol::hello_len_spec;
use crate::protocol::lemma_client_round_trip;
use crate::protocol::read_auth;
use crate::protocol::read_auth_spec;
use crate::protocol::read_hello;
use crate::protocol::read_hello_spec;
use crate::protocol::ClientPacket;
use crate::protocol::Hello;
use crate::protocol::PacketLength;
use crate::protocol::ReadError;
use crate::protocol::ServerPacket;
use crate::protocol::WombatError;
use crate::protocol::CURRENT_PROTO_VERSION;
use crate::protocol::KEY_WIDTH_BYTES;
use crate::utils::hash_key_bytes;
use crate::utils::key_hash_spec;
use vstd::prelude::*;

verus! {

/// Why a handshake ended without an identity.
#[derive(Debug, Clone, Copy, PartialEq, Eq, Structural)]
pub enum HandshakeError {
    /// Reading from or writing to the connection failed.
    Io,
    /// The agent speaks another protocol version.
    ProtocolVersion,
    /// The agent sent bytes that are no packet, or not the packet expected.
    InvalidPacket,
    /// No identity is stored for the key that the agent presented.
    Unauthorized,
    /// The key store could not be asked.
    KeyStore,
    /// An event was reported that the state was not waiting for.
    OutOfTurn,
}

/// Where a handshake stands.
#[derive(Debug, Clone, PartialEq, Eq)]
pub enum ServerState {
    /// Waiting for the agent's version announcement.
    AwaitHello,
    /// The echo of the announcement is being written.
    SendHello,
    /// Waiting for the agent's key.
    AwaitAuth,
    /// Waiting for the key store's answer.
    AwaitIdentity,
    /// The key was found; the acceptance is being written.
    Accept { identity: String },
    /// The handshake has failed; the report to the agent is being written.
    Reject { error: HandshakeError },
    /// Done: the connection belongs to `identity`.
    Authenticated { identity: String },
    /// Done: the connection is to be closed.
    Failed { error: HandshakeError },
}

/// What the caller reports.
#[derive(Debug, Clone, PartialEq, Eq)]
pub enum ServerEvent {
    /// The bytes that a `Read` asked for.
    Received(Vec<u8>),
    /// The frame of a `Send` was written and flushed.
    Sent,
    /// Reading or writing failed.
    Io,
    /// The key store's answer to a `Lookup`.
    Identity(Option<String>),
    /// The key store could not be asked.
    KeyStoreFailed,
}

/// What the caller is to do next.
#[derive(Debug, Clone, PartialEq, Eq)]
pub enum ServerAction {
    /// Read exactly `len` bytes and report them.
    Read { len: usize },
    /// Write `frame`, flush, and report.
    Send { frame: Vec<u8> },
    /// Ask the key store for the identity stored under `key_hash`, and report.
    Lookup { key_hash: String },
    /// The handshake succeeded: promote the connection.
    Promote,
    /// The handshake failed: close the connection.
    Close,
}

/// A `ServerState`, with the identity as the sequence of its characters.
pub enum ServerStateView {
    AwaitHello,
    SendHello,
    AwaitAuth,
    AwaitIdentity,
    Accept { identity: Seq<char> },
    Reject { error: HandshakeError },
    Authenticated { identity: Seq<char> },
    Failed { error: HandshakeError },
}

/// A `ServerEvent`, with bytes and text as sequences.
pub enum ServerEventView {
    Received(Seq<u8>),
    Sent,
    Io,
    Identity(Option<Seq<char>>),
    KeyStoreFailed,
}

/// A `ServerAction`, with bytes and text as sequences.
pub enum ServerActionView {
    Read { len: nat },
    Send { frame: Seq<u8> },
    Lookup { key_hash: Seq<char> },
    Promote,
    Close,
}

impl View for ServerState {
    type V = ServerStateView;

    open spec fn view(&self) -> ServerStateView {
        match *self {
            ServerState::AwaitHello => ServerStateView::AwaitHello,
            ServerState::SendHello => ServerStateView::SendHello,
            ServerState::AwaitAuth => ServerStateView::AwaitAuth,
            ServerState::AwaitIdentity => ServerStateView::AwaitIdentity,
            ServerState::Accept { identity } => ServerStateView::Accept { identity: identity@ },
            ServerState::Reject { error } => ServerStateView::Reject { error },
            ServerState::Authenticated { identity } => ServerStateView::Authenticated {
                identity: identity@,
            },
            ServerState::Failed { error } => ServerStateView::Failed { error },
        }
    }
}

impl View for ServerEvent {
    type V = ServerEventView;

    open spec fn view(&self) -> ServerEventView {
        match *self {
            ServerEvent::Received(bytes) => ServerEventView::Received(bytes@),
            ServerEvent::Sent => ServerEventView::Sent,
            ServerEvent::Io => ServerEventView::Io,
            ServerEvent::Identity(Some(identity)) => ServerEventView::Identity(Some(identity@)),
            ServerEvent::Identity(None) => ServerEventView::Identity(None),
            ServerEvent::KeyStoreFailed => ServerEventView::KeyStoreFailed,
        }
    }
}

impl View for ServerAction {
    type V = ServerActionView;

    open spec fn view(&self) -> ServerActionView {
        match *self {
            ServerAction::Read { len } => ServerActionView::Read { len: len as nat },
            ServerAction::Send { frame } => ServerActionView::Send { frame: frame@ },
            ServerAction::Lookup { key_hash } => ServerActionView::Lookup { key_hash: key_hash@ },
            ServerAction::Promote => ServerActionView::Promote,
            ServerAction::Close => ServerActionView::Close,
        }
    }
}

/// What a read failure means for the handshake: the packet that reports it to
/// the agent, if one is owed, and the error that the handshake ends with.
pub open spec fn handle_read_error_spec(e: ReadError) -> (Option<ServerPacket>, HandshakeError) {
    match e {
        ReadError::Io => (None, HandshakeError::Io),
        ReadError::Deserialization | ReadError::InvalidPacket => (
            Some(ServerPacket::Error(WombatError::InvalidPacket)),
            HandshakeError::InvalidPacket,
        ),
    }
}

/// The step that ends the handshake with `error`, reporting `report` first
/// where there is one.
pub open spec fn fail_spec(report: Option<ServerPacket>, error: HandshakeError) -> (
    ServerStateView,
    ServerActionView,
) {
    match report {
        Some(packet) => (
            ServerStateView::Reject { error },
            ServerActionView::Send { frame: frame_server_spec(packet) },
        ),
        None => (ServerStateView::Failed { error }, ServerActionView::Close),
    }
}

/// The step taken on an event that `state` was not waiting for.
pub open spec fn out_of_turn_spec() -> (ServerStateView, ServerActionView) {
    fail_spec(None, HandshakeError::OutOfTurn)
}

/// How a handshake begins: waiting for the announcement, which is to be read.
pub open spec fn handshake_start_spec() -> (ServerStateView, ServerActionView) {
    (ServerStateView::AwaitHello, ServerActionView::Read { len: hello_len_spec() })
}

/// One step of the broker's handshake: the state after `event`, and what the
/// caller is to do next.
pub open spec fn handshake_client_spec(state: ServerStateView, event: ServerEventView) -> (
    ServerStateView,
    ServerActionView,
) {
    match state {
        ServerStateView::AwaitHello => match event {
            ServerEventView::Received(bytes) => match read_hello_spec(bytes) {
                Ok(hello) => if hello.protocol_version == CURRENT_PROTO_VERSION {
                    (
                        ServerStateView::SendHello,
                        ServerActionView::Send {
                            frame: frame_server_spec(
                                ServerPacket::Hello(
                                    Hello { protocol_version: CURRENT_PROTO_VERSION },
                                ),
                            ),
                        },
                    )
                } else {
                    fail_spec(
                        Some(
                            ServerPacket::Error(
                                WombatError::ProtocolVersionMismatch {
                                    server_version: CURRENT_PROTO_VERSION,
                                },
                            ),
                        ),
                        HandshakeError::ProtocolVersion,
                    )
                },
                Err(e) => fail_spec(handle_read_error_spec(e).0, handle_read_error_spec(e).1),
            },
            ServerEventView::Io => fail_spec(None, HandshakeError::Io),
            _ => out_of_turn_spec(),
        },
        ServerStateView::SendHello => match event {
            ServerEventView::Sent => (
                ServerStateView::AwaitAuth,
                ServerActionView::Read { len: auth_len_spec() },
            ),
            ServerEventView::Io => fail_spec(None, HandshakeError::Io),
            _ => out_of_turn_spec(),
        },
        ServerStateView::AwaitAuth => match event {
            ServerEventView::Received(bytes) => match read_auth_spec(bytes) {
                Ok(key) => (
                    ServerStateView::AwaitIdentity,
                    ServerActionView::Lookup { key_hash: key_hash_spec(key@) },
                ),
                Err(e) => fail_spec(handle_read_error_spec(e).0, handle_read_error_spec(e).1),
            },
            ServerEventView::Io => fail_spec(None, HandshakeError::Io),
            _ => out_of_turn_spec(),
        },
        ServerStateView::AwaitIdentity => match event {
            ServerEventView::Identity(Some(identity)) => (
                ServerStateView::Accept { identity },
                ServerActionView::Send { frame: frame_server_spec(ServerPacket::AuthSuccess) },
            ),
            ServerEventView::Identity(None) => fail_spec(
                Some(ServerPacket::Unauthorized),
                HandshakeError::Unauthorized,
            ),
            ServerEventView::KeyStoreFailed => fail_spec(None, HandshakeError::KeyStore),
            _ => out_of_turn_spec(),
        },
        ServerStateView::Accept { identity } => match event {
            ServerEventView::Sent => (
                ServerStateView::Authenticated { identity },
                ServerActionView::Promote,
            ),
            ServerEventView::Io => fail_spec(None, HandshakeError::Io),
            _ => out_of_turn_spec(),
        },
        ServerStateView::Reject { error } => match event {
            ServerEventView::Sent => fail_spec(None, error),
            ServerEventView::Io => fail_spec(None, HandshakeError::Io),
            _ => out_of_turn_spec(),
        },
        ServerStateView::Authenticated { identity } => (
            ServerStateView::Authenticated { identity },
            ServerActionView::Promote,
        ),
        ServerStateView::Failed { error } => (
            ServerStateView::Failed { error },
            ServerActionView::Close,
        ),
    }
}

/// What a read failure means for the handshake: the packet that reports it to
/// the agent, if one is owed, and the error that the handshake ends with. A
/// failed connection is owed nothing; bytes that are no packet, or the wrong
/// one, are reported as an invalid packet.
pub fn handle_read_error(e: ReadError) -> (r: (Option<ServerPacket>, HandshakeError))
    ensures
        r == handle_read_error_spec(e),
{
    match e {
        ReadError::Io => (None, HandshakeError::Io),
        ReadError::Deserialization | ReadError::InvalidPacket => (
            Some(ServerPacket::from_error(WombatError::InvalidPacket)),
            HandshakeError::InvalidPacket,
        ),
    }
}

fn fail(report: Option<ServerPacket>, error: HandshakeError) -> (next: (ServerState, ServerAction))
    ensures
        (next.0@, next.1@) == fail_spec(report, error),
{
    match report {
        Some(packet) => (
            ServerState::Reject { error },
            ServerAction::Send { frame: frame_server_packet(&packet) },
        ),
        None => (ServerState::Failed { error }, ServerAction::Close),
    }
}

/// Begins a handshake on a fresh connection.
pub fn handshake_start() -> (next: (ServerState, ServerAction))
    ensures
        (next.0@, next.1@) == handshake_start_spec(),
{
    (ServerState::AwaitHello, ServerAction::Read { len: PacketLength::get().hello })
}

/// Advances the broker's handshake by one event.
pub fn handshake_client(state: ServerState, event: ServerEvent) -> (next: (
    ServerState,
    ServerAction,
))
    ensures
        (next.0@, next.1@) == handshake_client_spec(state@, event@),
{
    match state {
        ServerState::AwaitHello => match event {
            ServerEvent::Received(bytes) => match read_hello(bytes.as_slice()) {
                Ok(hello) => {
                    if hello.is_valid() {
                        let echo = ServerPacket::Hello(
                            Hello { protocol_version: CURRENT_PROTO_VERSION },
                        );
                        (
                            ServerState::SendHello,
                            ServerAction::Send { frame: frame_server_packet(&echo) },
                        )
                    } else {
                        fail(
                            Some(
                                ServerPacket::from_error(
                                    WombatError::ProtocolVersionMismatch {
                                        server_version: CURRENT_PROTO_VERSION,
                                    },
                                ),
                            ),
                            HandshakeError::ProtocolVersion,
                        )
                    }
                },
                Err(e) => {
                    let (report, error) = handle_read_error(e);
                    fail(report, error)
                },
            },
            ServerEvent::Io => fail(None, HandshakeError::Io),
            _ => fail(None, HandshakeError::OutOfTurn),
        },
        ServerState::SendHello => match event {
            ServerEvent::Sent => (
                ServerState::AwaitAuth,
                ServerAction::Read { len: PacketLength::get().auth },
            ),
            ServerEvent::Io => fail(None, HandshakeError::Io),
            _ => fail(None, HandshakeError::OutOfTurn),
        },
        ServerState::AwaitAuth => match event {
            ServerEvent::Received(bytes) => match read_auth(bytes.as_slice()) {
                Ok(key) => (
                    ServerState::AwaitIdentity,
                    ServerAction::Lookup { key_hash: hash_key_bytes(key.as_slice()) },
                ),
                Err(e) => {
                    let (report, error) = handle_read_error(e);
                    fail(report, error)
                },
            },
            ServerEvent::Io => fail(None, HandshakeError::Io),
            _ => fail(None, HandshakeError::OutOfTurn),
        },
        ServerState::AwaitIdentity => match event {
            ServerEvent::Identity(Some(identity)) => (
                ServerState::Accept { identity },
                ServerAction::Send { frame: frame_server_packet(&ServerPacket::AuthSuccess) },
            ),
            ServerEvent::Identity(None) => fail(
                Some(ServerPacket::Unauthorized),
                HandshakeError::Unauthorized,
            ),
            ServerEvent::KeyStoreFailed => fail(None, HandshakeError::KeyStore),
            _ => fail(None, HandshakeError::OutOfTurn),
        },
        ServerState::Accept { identity } => match event {
            ServerEvent::Sent => (ServerState::Authenticated { identity }, ServerAction::Promote),
            ServerEvent::Io => fail(None, HandshakeError::Io),
            _ => fail(None, HandshakeError::OutOfTurn),
        },
        ServerState::Reject { error } => match event {
            ServerEvent::Sent => fail(None, error),
            ServerEvent::Io => fail(None, HandshakeError::Io),
            _ => fail(None, HandshakeError::OutOfTurn),
        },
        ServerState::Authenticated { identity } => (
            ServerState::Authenticated { identity },
            ServerAction::Promote,
        ),
        ServerState::Failed { error } => (ServerState::Failed { error }, ServerAction::Close),
    }
}

/// The state that a handshake is in after `events`, one step each.
pub open spec fn handshake_run_spec(
    state: ServerStateView,
    events: Seq<ServerEventView>,
) -> ServerStateView
    decreases events.len(),
{
    if events.len() == 0 {
        state
    } else {
        handshake_run_spec(handshake_client_spec(state, events[0]).0, events.drop_first())
    }
}

/// The handshake has failed: the report is on its way, or the connection is
/// to be closed.
pub open spec fn is_rejected(state: ServerStateView) -> bool {
    state is Reject || state is Failed
}

/// What a key store that holds `store`, from key hash to identity, answers
/// when asked for `key_hash`.
pub open spec fn key_store_answer(
    store: Map<Seq<char>, Seq<char>>,
    key_hash: Seq<char>,
) -> ServerEventView {
    ServerEventView::Identity(
        if store.contains_key(key_hash) {
            Some(store[key_hash])
        } else {
            None
        },
    )
}

/// A failed handshake stays failed whatever is reported to it, and asks for
/// nothing but to close the connection: it reads no further packet, asks the
/// key store nothing and never promotes.
pub proof fn lemma_rejected_is_final(state: ServerStateView, event: ServerEventView)
    requires
        is_rejected(state),
    ensures
        is_rejected(handshake_client_spec(state, event).0),
        handshake_client_spec(state, event).1 == ServerActionView::Close,
{
}

/// No run of events brings a failed handshake to an identity.
pub proof fn lemma_rejected_never_authenticates(
    state: ServerStateView,
    events: Seq<ServerEventView>,
)
    requires
        is_rejected(state),
    ensures
        is_rejected(handshake_run_spec(state, events)),
    decreases events.len(),
{
    if events.len() > 0 {
        lemma_rejected_is_final(state, events[0]);
        lemma_rejected_never_authenticates(
            handshake_client_spec(state, events[0]).0,
            events.drop_first(),
        );
    }
}

/// Version gate: an announcement of any version but the current one is
/// answered with a version mismatch that names the current version, and the
/// handshake has failed for good, whatever follows.
pub proof fn lemma_version_gate(version: u8, rest: Seq<u8>, later: Seq<ServerEventView>)
    requires
        version != CURRENT_PROTO_VERSION,
    ensures
        ({
            let hello = ClientPacket::Hello(Hello { protocol_version: version });
            let next = handshake_client_spec(
                ServerStateView::AwaitHello,
                ServerEventView::Received(encode_client_spec(hello) + rest),
            );
            &&& next.0 == ServerStateView::Reject { error: HandshakeError::ProtocolVersion }
            &&& next.1 == ServerActionView::Send {
                frame: frame_server_spec(
                    ServerPacket::Error(
                        WombatError::ProtocolVersionMismatch {
                            server_version: CURRENT_PROTO_VERSION,
                        },
                    ),
                ),
            }
            &&& is_rejected(handshake_run_spec(next.0, later))
        }),
{
    let hello = ClientPacket::Hello(Hello { protocol_version: version });
    lemma_client_round_trip(hello, rest);
    let next = handshake_client_spec(
        ServerStateView::AwaitHello,
        ServerEventView::Received(encode_client_spec(hello) + rest),
    );
    lemma_rejected_never_authenticates(next.0, later);
}

/// An announcement of the current version is echoed, and the key is read next.
pub proof fn lemma_version_accepted(rest: Seq<u8>)
    ensures
        ({
            let hello = ClientPacket::Hello(Hello { protocol_version: CURRENT_PROTO_VERSION });
            let next = handshake_client_spec(
                ServerStateView::AwaitHello,
                ServerEventView::Received(encode_client_spec(hello) + rest),
            );
            &&& next.0 == ServerStateView::SendHello
            &&& next.1 == ServerActionView::Send {
                frame: frame_server_spec(ServerPacket::Hello(
                    Hello { protocol_version: CURRENT_PROTO_VERSION },
                )),
            }
            &&& handshake_client_spec(next.0, ServerEventView::Sent) == (
                ServerStateView::AwaitAuth,
                ServerActionView::Read { len: auth_len_spec() },
            )
        }),
{
    let hello = ClientPacket::Hello(Hello { protocol_version: CURRENT_PROTO_VERSION });
    lemma_client_round_trip(hello, rest);
}

/// Authentication: the key store is asked for the hash of the key that was
/// presented. A key whose hash is stored is accepted as the identity stored
/// under it; any other key is turned away as unauthorized.
pub proof fn lemma_auth_correctness(
    key: [u8; KEY_WIDTH_BYTES],
    rest: Seq<u8>,
    store: Map<Seq<char>, Seq<char>>,
)
    ensures
        ({
            let hash = key_hash_spec(key@);
            let asked = handshake_client_spec(
                ServerStateView::AwaitAuth,
                ServerEventView::Received(encode_client_spec(ClientPacket::Auth(key)) + rest),
            );
            let answered = handshake_client_spec(asked.0, key_store_answer(store, hash));
            &&& asked == (ServerStateView::AwaitIdentity, ServerActionView::Lookup { key_hash: hash })
            &&& store.contains_key(hash) ==> {
                &&& answered == (
                    ServerStateView::Accept { identity: store[hash] },
                    ServerActionView::Send { frame: frame_server_spec(ServerPacket::AuthSuccess) },
                )
                &&& handshake_client_spec(answered.0, ServerEventView::Sent) == (
                    ServerStateView::Authenticated { identity: store[hash] },
                    ServerActionView::Promote,
                )
            }
            &&& !store.contains_key(hash) ==> {
                &&& answered == (
                    ServerStateView::Reject { error: HandshakeError::Unauthorized },
                    ServerActionView::Send { frame: frame_server_spec(ServerPacket::Unauthorized) },
                )
                &&& is_rejected(answered.0)
            }
        }),
{
    lemma_client_round_trip(ClientPacket::Auth(key), rest);
}

/// The outcome for a key depends on the entry under its hash alone: two key
/// stores that agree there, whatever else they hold, lead to the same state
/// and the same answer to the agent.
pub proof fn lemma_auth_ignores_other_keys(
    key: [u8; KEY_WIDTH_BYTES],
    first: Map<Seq<char>, Seq<char>>,
    second: Map<Seq<char>, Seq<char>>,
)
    requires
        first.contains_key(key_hash_spec(key@)) == second.contains_key(key_hash_spec(key@)),
        first.contains_key(key_hash_spec(key@)) ==> first[key_hash_spec(key@)]
            == second[key_hash_spec(key@)],
    ensures
        handshake_client_spec(
            ServerStateView::AwaitIdentity,
            key_store_answer(first, key_hash_spec(key@)),
        ) == handshake_client_spec(
            ServerStateView::AwaitIdentity,
            key_store_answer(second, key_hash_spec(key@)),
        ),
{
}

/// The event brings an announcement of the current version.
pub open spec fn brings_current_hello(event: ServerEventView) -> bool {
    match event {
        ServerEventView::Received(bytes) => read_hello_spec(bytes) == Ok::<Hello, ReadError>(
            Hello { protocol_version: CURRENT_PROTO_VERSION },
        ),
        _ => false,
    }
}

/// The event brings a key.
pub open spec fn brings_key(event: ServerEventView) -> bool {
    match event {
        ServerEventView::Received(bytes) => read_auth_spec(bytes) is Ok,
        _ => false,
    }
}

/// A handshake that is not over yet fails or goes one state on, in this
/// order: the announcement, its echo, the key, the key store's answer, the
/// acceptance.
proof fn lemma_one_way(state: ServerStateView, event: ServerEventView)
    ensures
        ({
            let next = handshake_client_spec(state, event).0;
            match state {
                ServerStateView::AwaitHello => is_rejected(next) || (next
                    == ServerStateView::SendHello && brings_current_hello(event)),
                ServerStateView::SendHello => is_rejected(next) || (next
                    == ServerStateView::AwaitAuth && event == ServerEventView::Sent),
                ServerStateView::AwaitAuth => is_rejected(next) || (next
                    == ServerStateView::AwaitIdentity && brings_key(event)),
                ServerStateView::AwaitIdentity => is_rejected(next) || (event is Identity
                    && event->Identity_0 is Some && next == (ServerStateView::Accept {
                    identity: event->Identity_0->0,
                })),
                ServerStateView::Accept { identity } => is_rejected(next) || (next
                    == (ServerStateView::Authenticated { identity }) && event
                    == ServerEventView::Sent),
                ServerStateView::Authenticated { identity } => next == state,
                _ => is_rejected(next),
            }
        }),
{
}

/// The state after a run that is not empty is the state after the rest of
/// the run, begun where the first event leads.
proof fn lemma_run_unfold(state: ServerStateView, events: Seq<ServerEventView>)
    requires
        events.len() > 0,
    ensures
        handshake_run_spec(state, events) == handshake_run_spec(
            handshake_client_spec(state, events[0]).0,
            events.drop_first(),
        ),
{
}

/// An identity is won in one way only. A handshake that ends authenticated
/// has read an announcement of the current version, written its echo, read a
/// key, got this very identity from the key store, and written the
/// acceptance, in this order and with nothing in between.
pub proof fn lemma_authenticated_only_by_the_key_store(
    events: Seq<ServerEventView>,
    identity: Seq<char>,
)
    requires
        handshake_run_spec(ServerStateView::AwaitHello, events)
            == (ServerStateView::Authenticated { identity }),
    ensures
        events.len() >= 5,
        brings_current_hello(events[0]),
        events[1] == ServerEventView::Sent,
        brings_key(events[2]),
        events[3] == ServerEventView::Identity(Some(identity)),
        events[4] == ServerEventView::Sent,
{
    let s0 = ServerStateView::AwaitHello;
    assert(events.len() > 0);
    lemma_run_unfold(s0, events);
    lemma_one_way(s0, events[0]);
    let s1 = handshake_client_spec(s0, events[0]).0;
    let r1 = events.drop_first();
    if is_rejected(s1) {
        lemma_rejected_never_authenticates(s1, r1);
    }
    assert(r1.len() > 0);
    lemma_run_unfold(s1, r1);
    lemma_one_way(s1, r1[0]);
    let s2 = handshake_client_spec(s1, r1[0]).0;
    let r2 = r1.drop_first();
    if is_rejected(s2) {
        lemma_rejected_never_authenticates(s2, r2);
    }
    assert(r2.len() > 0);
    lemma_run_unfold(s2, r2);
    lemma_one_way(s2, r2[0]);
    let s3 = handshake_client_spec(s2, r2[0]).0;
    let r3 = r2.drop_first();
    if is_rejected(s3) {
        lemma_rejected_never_authenticates(s3, r3);
    }
    assert(r3.len() > 0);
    lemma_run_unfold(s3, r3);
    lemma_one_way(s3, r3[0]);
    let s4 = handshake_client_spec(s3, r3[0]).0;
    let r4 = r3.drop_first();
    if is_rejected(s4) {
        lemma_rejected_never_authenticates(s4, r4);
    }
    assert(r4.len() > 0);
    lemma_run_unfold(s4, r4);
    lemma_one_way(s4, r4[0]);
    let s5 = handshake_client_spec(s4, r4[0]).0;
    let r5 = r4.drop_first();
    if is_rejected(s5) {
        lemma_rejected_never_authenticates(s5, r5);
    }
    lemma_authenticated_stays(s5, r5);
    assert(r1[0] == events[1]);
    assert(r2[0] == events[2]);
    assert(r3[0] == events[3]);
    assert(r4[0] == events[4]);
}

/// A handshake that has won an identity keeps it.
proof fn lemma_authenticated_stays(state: ServerStateView, events: Seq<ServerEventView>)
    requires
        state is Authenticated,
    ensures
        handshake_run_spec(state, events) == state,
    decreases events.len(),
{
    if events.len() > 0 {
        lemma_authenticated_stays(state, events.drop_first());
    }
}

} // verus!
